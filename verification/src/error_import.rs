//! The rules that strip the source of an `Error` trait module of what only
//! a built-in library may hold: stability and diagnostic attributes,
//! unstable items, and the items that rest on them.

use crate::block_regex::{BlockRegex, Rule};
use crate::pattern::regex_compiles;
use crate::rules::{
    applies, attr_block_rule, attr_line_pattern, attr_open_pattern, block_pattern, block_rule,
    doc_attr_pattern, fn_pattern, line_rule, stable_attr_pattern, text_pattern, text_rule,
    try_remove_attr, try_remove_block, try_remove_doc_attr, try_remove_fn, try_remove_line,
    try_remove_stable_attr, try_remove_text, try_remove_unstable_features, unstable_pattern,
};
use crate::transformer::Transformer;
use vstd::prelude::*;

verus! {

/// One rule on top of a transformer.
pub type One<T> = BlockRegex<T>;

/// Two rules on top of a transformer.
pub type Two<T> = BlockRegex<BlockRegex<T>>;

/// The whole pipeline on top of a source `T`, the first rule innermost.
pub type ErrorImport<T> = One<One<One<One<Two<One<Two<Two<One<One<One<One<T>>>>>>>>>>>>;

/// Keeps the function `type_id` though it is marked unstable: the
/// attribute lines before it are dropped and the line itself stays.
pub open spec fn type_id_rule() -> Rule {
    Rule {
        start: Some(r##"^\s*(?:#\[unstable|feature|reason|issue|\)\]).*"##@),
        commit: r##"^(\s*fn type_id.*)"##@,
        end: None,
        replace: seq![r##"${1}"##@],
    }
}

/// Matches the attribute that marks the feature `error_type_id`.
pub open spec fn type_id_attr_pattern() -> Seq<char> {
    r##"^\s*#\[unstable\(feature = "error_type_id""##@
}

/// Every pattern of the pipeline is a regular expression.
pub open spec fn patterns_compile() -> bool {
    &&& type_id_rule().wf()
    &&& regex_compiles(type_id_attr_pattern())
    &&& regex_compiles(stable_attr_pattern())
    &&& regex_compiles(doc_attr_pattern())
    &&& attr_compiles(r##"rustc_diagnostic_item"##@)
    &&& attr_compiles(r##"rustc_has_incoherent_inherent_impls"##@)
    &&& block_rule(unstable_pattern()).wf()
    &&& attr_compiles(r##"unstable"##@)
    &&& block_rule(block_pattern(r##"impl Error for crate::char::ParseCharError"##@)).wf()
    &&& block_rule(block_pattern(r##"impl Error for crate::ffi::FromBytesWithNulError"##@)).wf()
    &&& block_rule(fn_pattern(r##"provide"##@)).wf()
    &&& regex_compiles(text_pattern(r##"Demand, Provider, "##@))
}

/// The patterns of the two rules that drop the attribute `re` are regular
/// expressions.
pub open spec fn attr_compiles(re: Seq<char>) -> bool {
    &&& regex_compiles(attr_line_pattern(re))
    &&& regex_compiles(attr_open_pattern(re))
    &&& regex_compiles(r##"^\)?\].*"##@)
}

/// `made` drops the attribute `re` from the lines of `inner`.
pub open spec fn drops_attr<T: Transformer>(made: Two<T>, inner: T, re: Seq<char>) -> bool {
    &&& applies(made.inner(), inner, line_rule(attr_line_pattern(re)))
    &&& applies(made, made.inner(), attr_block_rule(re))
}

/// `made` is the pipeline on top of `source`: each rule fresh, in the
/// order in which the lines pass through them.
pub open spec fn imports_error<T: Transformer>(made: ErrorImport<T>, source: T) -> bool {
    let f11 = made.inner();
    let f10 = f11.inner();
    let f9 = f10.inner();
    let f8 = f9.inner();
    let f7 = f8.inner().inner();
    let f6 = f7.inner();
    let f5 = f6.inner().inner();
    let f4 = f5.inner().inner();
    let f3 = f4.inner();
    let f2 = f3.inner();
    let f1 = f2.inner();
    &&& applies(f1, source, type_id_rule())
    &&& applies(f2, f1, line_rule(type_id_attr_pattern()))
    &&& applies(f3, f2, line_rule(stable_attr_pattern()))
    &&& applies(f4, f3, line_rule(doc_attr_pattern()))
    &&& drops_attr(f5, f4, r##"rustc_diagnostic_item"##@)
    &&& drops_attr(f6, f5, r##"rustc_has_incoherent_inherent_impls"##@)
    &&& applies(f7, f6, block_rule(unstable_pattern()))
    &&& drops_attr(f8, f7, r##"unstable"##@)
    &&& applies(
        f9,
        f8,
        block_rule(block_pattern(r##"impl Error for crate::char::ParseCharError"##@)),
    )
    &&& applies(
        f10,
        f9,
        block_rule(block_pattern(r##"impl Error for crate::ffi::FromBytesWithNulError"##@)),
    )
    &&& applies(f11, f10, block_rule(fn_pattern(r##"provide"##@)))
    &&& applies(made, f11, text_rule(r##"Demand, Provider, "##@))
}

/// Puts the pipeline on top of `source`.
///
/// Returns `None` where one of its patterns is not a regular expression.
pub fn import_error<T: Transformer>(source: T) -> (made: Option<ErrorImport<T>>)
    ensures
        made is Some <==> patterns_compile(),
        made matches Some(f) ==> imports_error(f, source),
{
    // Keeps the function `type_id` of the trait though it is marked
    // unstable: a stable function of the trait object uses it.
    let f = match BlockRegex::try_new(
        source,
        Some(r##"^\s*(?:#\[unstable|feature|reason|issue|\)\]).*"##),
        r##"^(\s*fn type_id.*)"##,
        None,
        &[r##"${1}"##],
    ) {
        Ok(f) => f,
        Err(_) => {
            return None;
        },
    };
    assert(f.rule().replace =~= seq![r##"${1}"##@]);
    let f = match try_remove_line(f, r##"^\s*#\[unstable\(feature = "error_type_id""##) {
        Ok(f) => f,
        Err(_) => {
            return None;
        },
    };

    // Attributes that only built-in libraries may carry.
    let f = match try_remove_stable_attr(f) {
        Ok(f) => f,
        Err(_) => {
            return None;
        },
    };
    let f = match try_remove_doc_attr(f) {
        Ok(f) => f,
        Err(_) => {
            return None;
        },
    };
    let f = match try_remove_attr(f, r##"rustc_diagnostic_item"##) {
        Ok(f) => f,
        Err(_) => {
            return None;
        },
    };
    let f = match try_remove_attr(f, r##"rustc_has_incoherent_inherent_impls"##) {
        Ok(f) => f,
        Err(_) => {
            return None;
        },
    };

    // Unstable items.
    let f = match try_remove_unstable_features(f) {
        Ok(f) => f,
        Err(_) => {
            return None;
        },
    };
    let f = match try_remove_attr(f, r##"unstable"##) {
        Ok(f) => f,
        Err(_) => {
            return None;
        },
    };

    // Items that rest on unstable ones.
    let f = match try_remove_block(f, r##"impl Error for crate::char::ParseCharError"##) {
        Ok(f) => f,
        Err(_) => {
            return None;
        },
    };
    let f = match try_remove_block(f, r##"impl Error for crate::ffi::FromBytesWithNulError"##) {
        Ok(f) => f,
        Err(_) => {
            return None;
        },
    };
    let f = match try_remove_fn(f, r##"provide"##) {
        Ok(f) => f,
        Err(_) => {
            return None;
        },
    };

    match try_remove_text(f, r##"Demand, Provider, "##) {
        Ok(f) => Some(f),
        Err(_) => None,
    }
}

} // verus!
