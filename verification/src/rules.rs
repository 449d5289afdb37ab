//! Ready-made rules: each removes one kind of text from the lines of a
//! transformer.
//!
//! A rule is made of regular expressions. `remove_..` asks that its
//! patterns are regular expressions; `try_remove_..` tests that first and
//! hands the transformer back where one is not.

use crate::block_regex::{BlockRegex, Progress, Rule};
use crate::pattern::{compiles, escape, regex_compiles, regex_escape};
use crate::transformer::Transformer;
use vstd::prelude::*;

verus! {

/// `made` is a fresh transformer that applies `rule` to the lines of
/// `inner`.
pub open spec fn applies<T: Transformer>(made: BlockRegex<T>, inner: T, rule: Rule) -> bool {
    &&& made.wf()
    &&& made.inner() == inner
    &&& made.progress() == Progress::initial()
    &&& made.rule() == rule
}

/// A rule that drops every line that matches `commit`.
pub open spec fn line_rule(commit: Seq<char>) -> Rule {
    Rule { start: None, commit, end: None, replace: Seq::empty() }
}

/// A rule that drops a block: the line that matches `commit`, the comment
/// and attribute lines right before it, and every line after it up to the
/// closing brace at the indentation that `commit` captured.
pub open spec fn block_rule(commit: Seq<char>) -> Rule {
    Rule {
        start: Some(r##"^\s*(?:///|#\[).*"##@),
        commit,
        end: Some(r##"^\}.*"##@),
        replace: Seq::empty(),
    }
}

/// Matches a `stable` attribute.
pub open spec fn stable_attr_pattern() -> Seq<char> {
    r##"^\s*#!?\[stable\(.*"##@
}

/// Matches a `doc` attribute.
pub open spec fn doc_attr_pattern() -> Seq<char> {
    r##"^\s*#!?\[doc\s*=.*"##@
}

/// Matches an attribute that holds `re` and closes on its line.
pub open spec fn attr_line_pattern(re: Seq<char>) -> Seq<char> {
    r##"^\s*#!?\[.*"##@ + re + r##".*\].*"##@
}

/// Matches the first line of an attribute that holds `re`.
pub open spec fn attr_open_pattern(re: Seq<char>) -> Seq<char> {
    r##"^(\s*)#!?\[.*"##@ + re + r##".*"##@
}

/// The rule for an attribute that holds `re` and runs over several lines:
/// from its first line to the line that closes it.
pub open spec fn attr_block_rule(re: Seq<char>) -> Rule {
    Rule {
        start: None,
        commit: attr_open_pattern(re),
        end: Some(r##"^\)?\].*"##@),
        replace: Seq::empty(),
    }
}

/// Matches an `unstable` attribute.
pub open spec fn unstable_pattern() -> Seq<char> {
    r##"^(\s*)#\[unstable\(.*"##@
}

/// Matches the first line of the function `name`.
pub open spec fn fn_pattern(name: Seq<char>) -> Seq<char> {
    r##"^(\s*).*fn\s"##@ + name + r##".*"##@
}

/// Matches a line that begins, after its indentation, with `name`.
pub open spec fn block_pattern(name: Seq<char>) -> Seq<char> {
    r##"^(\s*)"##@ + name + r##".*"##@
}

/// Matches a line that holds `text`, capturing what stands before it and
/// after it.
pub open spec fn text_pattern(text: Seq<char>) -> Seq<char> {
    r##"^(.*)"##@ + regex_escape(text) + r##"(.*)"##@
}

/// The rule that takes `text` out of a line and keeps the rest of it.
pub open spec fn text_rule(text: Seq<char>) -> Rule {
    Rule { start: None, commit: text_pattern(text), end: None, replace: seq![r##"${1}${2}"##@] }
}

/// The pattern `head`, `middle`, `tail` in one piece.
fn join(head: &str, middle: &str, tail: &str) -> (joined: String)
    ensures
        joined@ == head@ + middle@ + tail@,
{
    String::from_str(head).concat(middle).concat(tail)
}

/// Drops every `stable` attribute.
pub fn remove_stable_attr<T: Transformer>(inner: T) -> (made: BlockRegex<T>)
    requires
        regex_compiles(stable_attr_pattern()),
    ensures
        applies(made, inner, line_rule(stable_attr_pattern())),
{
    let made = BlockRegex::new(inner, None, r##"^\s*#!?\[stable\(.*"##, None, &[]);
    assert(made.rule().replace =~= Seq::<Seq<char>>::empty());
    made
}

/// The same as `remove_stable_attr` where its pattern is a regular
/// expression; else `inner` comes back untouched.
pub fn try_remove_stable_attr<T: Transformer>(inner: T) -> (made: Result<BlockRegex<T>, T>)
    ensures
        made is Ok <==> regex_compiles(stable_attr_pattern()),
        made matches Ok(m) ==> applies(m, inner, line_rule(stable_attr_pattern())),
        made matches Err(back) ==> back == inner,
{
    if compiles(r##"^\s*#!?\[stable\(.*"##) {
        Ok(remove_stable_attr(inner))
    } else {
        Err(inner)
    }
}

/// Drops every attribute that holds `re`, whether it closes on its line
/// or runs over several lines.
pub fn remove_attr<T: Transformer>(inner: T, re: &str) -> (made: BlockRegex<BlockRegex<T>>)
    requires
        regex_compiles(attr_line_pattern(re@)),
        regex_compiles(attr_open_pattern(re@)),
        regex_compiles(r##"^\)?\].*"##@),
    ensures
        applies(made.inner(), inner, line_rule(attr_line_pattern(re@))),
        applies(made, made.inner(), attr_block_rule(re@)),
{
    let line = join(r##"^\s*#!?\[.*"##, re, r##".*\].*"##);
    let f = BlockRegex::new(inner, None, line.as_str(), None, &[]);
    assert(f.rule().replace =~= Seq::<Seq<char>>::empty());

    let open = join(r##"^(\s*)#!?\[.*"##, re, r##".*"##);
    let made = BlockRegex::new(f, None, open.as_str(), Some(r##"^\)?\].*"##), &[]);
    assert(made.rule().replace =~= Seq::<Seq<char>>::empty());
    made
}

/// The same as `remove_attr` where its patterns are regular expressions;
/// else `inner` comes back untouched.
pub fn try_remove_attr<T: Transformer>(inner: T, re: &str) -> (made: Result<
    BlockRegex<BlockRegex<T>>,
    T,
>)
    ensures
        made is Ok <==> {
            &&& regex_compiles(attr_line_pattern(re@))
            &&& regex_compiles(attr_open_pattern(re@))
            &&& regex_compiles(r##"^\)?\].*"##@)
        },
        made matches Ok(m) ==> applies(m.inner(), inner, line_rule(attr_line_pattern(re@)))
            && applies(m, m.inner(), attr_block_rule(re@)),
        made matches Err(back) ==> back == inner,
{
    let line = join(r##"^\s*#!?\[.*"##, re, r##".*\].*"##);
    let open = join(r##"^(\s*)#!?\[.*"##, re, r##".*"##);

    if compiles(line.as_str()) && compiles(open.as_str()) && compiles(r##"^\)?\].*"##) {
        Ok(remove_attr(inner, re))
    } else {
        Err(inner)
    }
}

/// Drops every item marked `unstable`, with the comment and attribute
/// lines right before it.
pub fn remove_unstable_features<T: Transformer>(inner: T) -> (made: BlockRegex<T>)
    requires
        block_rule(unstable_pattern()).wf(),
    ensures
        applies(made, inner, block_rule(unstable_pattern())),
{
    let made = BlockRegex::new(
        inner,
        Some(r##"^\s*(?:///|#\[).*"##),
        r##"^(\s*)#\[unstable\(.*"##,
        Some(r##"^\}.*"##),
        &[],
    );
    assert(made.rule().replace =~= Seq::<Seq<char>>::empty());
    made
}

/// The same as `remove_unstable_features` where its patterns are regular
/// expressions; else `inner` comes back untouched.
pub fn try_remove_unstable_features<T: Transformer>(inner: T) -> (made: Result<BlockRegex<T>, T>)
    ensures
        made is Ok <==> block_rule(unstable_pattern()).wf(),
        made matches Ok(m) ==> applies(m, inner, block_rule(unstable_pattern())),
        made matches Err(back) ==> back == inner,
{
    if compiles(r##"^\s*(?:///|#\[).*"##) && compiles(r##"^(\s*)#\[unstable\(.*"##) && compiles(
        r##"^\}.*"##,
    ) {
        Ok(remove_unstable_features(inner))
    } else {
        Err(inner)
    }
}

/// Drops every `doc` attribute.
pub fn remove_doc_attr<T: Transformer>(inner: T) -> (made: BlockRegex<T>)
    requires
        regex_compiles(doc_attr_pattern()),
    ensures
        applies(made, inner, line_rule(doc_attr_pattern())),
{
    let made = BlockRegex::new(inner, None, r##"^\s*#!?\[doc\s*=.*"##, None, &[]);
    assert(made.rule().replace =~= Seq::<Seq<char>>::empty());
    made
}

/// The same as `remove_doc_attr` where its pattern is a regular
/// expression; else `inner` comes back untouched.
pub fn try_remove_doc_attr<T: Transformer>(inner: T) -> (made: Result<BlockRegex<T>, T>)
    ensures
        made is Ok <==> regex_compiles(doc_attr_pattern()),
        made matches Ok(m) ==> applies(m, inner, line_rule(doc_attr_pattern())),
        made matches Err(back) ==> back == inner,
{
    if compiles(r##"^\s*#!?\[doc\s*=.*"##) {
        Ok(remove_doc_attr(inner))
    } else {
        Err(inner)
    }
}

/// Drops the function `name`, with the comment and attribute lines right
/// before it.
pub fn remove_fn<T: Transformer>(inner: T, name: &str) -> (made: BlockRegex<T>)
    requires
        block_rule(fn_pattern(name@)).wf(),
    ensures
        applies(made, inner, block_rule(fn_pattern(name@))),
{
    let commit = join(r##"^(\s*).*fn\s"##, name, r##".*"##);
    let made = BlockRegex::new(
        inner,
        Some(r##"^\s*(?:///|#\[).*"##),
        commit.as_str(),
        Some(r##"^\}.*"##),
        &[],
    );
    assert(made.rule().replace =~= Seq::<Seq<char>>::empty());
    made
}

/// The same as `remove_fn` where its patterns are regular expressions;
/// else `inner` comes back untouched.
pub fn try_remove_fn<T: Transformer>(inner: T, name: &str) -> (made: Result<BlockRegex<T>, T>)
    ensures
        made is Ok <==> block_rule(fn_pattern(name@)).wf(),
        made matches Ok(m) ==> applies(m, inner, block_rule(fn_pattern(name@))),
        made matches Err(back) ==> back == inner,
{
    let commit = join(r##"^(\s*).*fn\s"##, name, r##".*"##);

    if compiles(r##"^\s*(?:///|#\[).*"##) && compiles(commit.as_str()) && compiles(r##"^\}.*"##) {
        Ok(remove_fn(inner, name))
    } else {
        Err(inner)
    }
}

/// Drops the block whose first line begins with `name`, with the comment
/// and attribute lines right before it.
pub fn remove_block<T: Transformer>(inner: T, name: &str) -> (made: BlockRegex<T>)
    requires
        block_rule(block_pattern(name@)).wf(),
    ensures
        applies(made, inner, block_rule(block_pattern(name@))),
{
    let commit = join(r##"^(\s*)"##, name, r##".*"##);
    let made = BlockRegex::new(
        inner,
        Some(r##"^\s*(?:///|#\[).*"##),
        commit.as_str(),
        Some(r##"^\}.*"##),
        &[],
    );
    assert(made.rule().replace =~= Seq::<Seq<char>>::empty());
    made
}

/// The same as `remove_block` where its patterns are regular expressions;
/// else `inner` comes back untouched.
pub fn try_remove_block<T: Transformer>(inner: T, name: &str) -> (made: Result<BlockRegex<T>, T>)
    ensures
        made is Ok <==> block_rule(block_pattern(name@)).wf(),
        made matches Ok(m) ==> applies(m, inner, block_rule(block_pattern(name@))),
        made matches Err(back) ==> back == inner,
{
    let commit = join(r##"^(\s*)"##, name, r##".*"##);

    if compiles(r##"^\s*(?:///|#\[).*"##) && compiles(commit.as_str()) && compiles(r##"^\}.*"##) {
        Ok(remove_block(inner, name))
    } else {
        Err(inner)
    }
}

/// Drops every line that matches the regular expression `text`.
pub fn remove_line<T: Transformer>(inner: T, text: &str) -> (made: BlockRegex<T>)
    requires
        regex_compiles(text@),
    ensures
        applies(made, inner, line_rule(text@)),
{
    let made = BlockRegex::new(inner, None, text, None, &[]);
    assert(made.rule().replace =~= Seq::<Seq<char>>::empty());
    made
}

/// The same as `remove_line` where `text` is a regular expression; else
/// `inner` comes back untouched.
pub fn try_remove_line<T: Transformer>(inner: T, text: &str) -> (made: Result<BlockRegex<T>, T>)
    ensures
        made is Ok <==> regex_compiles(text@),
        made matches Ok(m) ==> applies(m, inner, line_rule(text@)),
        made matches Err(back) ==> back == inner,
{
    if compiles(text) {
        Ok(remove_line(inner, text))
    } else {
        Err(inner)
    }
}

/// Takes the first `text` out of every line that holds it and keeps the
/// rest of the line. `text` is taken as it stands, not as a pattern.
pub fn remove_text<T: Transformer>(inner: T, text: &str) -> (made: BlockRegex<T>)
    requires
        regex_compiles(text_pattern(text@)),
    ensures
        applies(made, inner, text_rule(text@)),
{
    let commit = join(r##"^(.*)"##, escape(text).as_str(), r##"(.*)"##);
    let made = BlockRegex::new(inner, None, commit.as_str(), None, &[r##"${1}${2}"##]);
    assert(made.rule().replace =~= seq![r##"${1}${2}"##@]);
    made
}

/// The same as `remove_text` where its pattern is a regular expression;
/// else `inner` comes back untouched.
pub fn try_remove_text<T: Transformer>(inner: T, text: &str) -> (made: Result<BlockRegex<T>, T>)
    ensures
        made is Ok <==> regex_compiles(text_pattern(text@)),
        made matches Ok(m) ==> applies(m, inner, text_rule(text@)),
        made matches Err(back) ==> back == inner,
{
    let commit = join(r##"^(.*)"##, escape(text).as_str(), r##"(.*)"##);

    if compiles(commit.as_str()) {
        Ok(remove_text(inner, text))
    } else {
        Err(inner)
    }
}

} // verus!
