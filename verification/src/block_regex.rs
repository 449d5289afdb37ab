//! Search and replace over several lines, driven by regular expressions.
//!
//! A rule has a commit pattern and may have a start and an end pattern,
//! and a list of replacements. A line that matches the commit pattern is
//! replaced by one line for each replacement. Lines that match the start
//! pattern are held back: a commit that follows drops them, any other line
//! releases them. After a commit, under a rule with an end pattern, every
//! line is dropped up to the first one that, behind the prefix that the
//! commit captured, matches the end pattern.

use crate::pattern::{
    compiles, first_group, is_match, regex_compiles, regex_first_group, regex_is_match,
    regex_replace, replace, strip_prefix,
};
use crate::transformer::{text, Transformer};
use vstd::prelude::*;

verus! {

/// Where a rule stands between two lines.
#[derive(Debug, Clone, Copy, PartialEq, Eq)]
pub enum BlockRegexState {
    /// Outside any block.
    Ready,
    /// Holding back lines that matched the start pattern.
    Started,
    /// Inside a block, dropping lines up to the end pattern.
    Committed,
}

/// The patterns and replacements of a rule, as text.
pub struct Rule {
    /// Lines that match it are held back until the next line decides.
    pub start: Option<Seq<char>>,
    /// A line that matches it is replaced, and opens a block where there
    /// is an end pattern.
    pub commit: Seq<char>,
    /// Closes a block, where it matches behind the captured prefix.
    pub end: Option<Seq<char>>,
    /// What stands for a committed line: one line for each entry.
    pub replace: Seq<Seq<char>>,
}

/// What a rule remembers between two lines.
pub struct Progress {
    /// Where the rule stands.
    pub state: BlockRegexState,
    /// The lines held back since the start pattern matched.
    pub keep: Seq<Seq<char>>,
    /// What the first group of the commit pattern captured.
    pub prefix: Seq<char>,
}

/// Whether `pattern` is there and matches `line`.
pub open spec fn matches_opt(pattern: Option<Seq<char>>, line: Seq<char>) -> bool {
    pattern matches Some(p) && regex_is_match(p, line)
}

impl Progress {
    /// Lines are held back only while the rule is started.
    pub open spec fn wf(self) -> bool {
        self.state != BlockRegexState::Started ==> self.keep.len() == 0
    }

    /// Where every rule begins.
    pub open spec fn initial() -> Progress {
        Progress { state: BlockRegexState::Ready, keep: Seq::empty(), prefix: Seq::empty() }
    }
}

impl Rule {
    /// Every pattern of the rule is a regular expression.
    pub open spec fn wf(self) -> bool {
        &&& regex_compiles(self.commit)
        &&& self.start matches Some(p) ==> regex_compiles(p)
        &&& self.end matches Some(p) ==> regex_compiles(p)
    }

    /// The lines that stand for a committed `line`: one for each
    /// replacement.
    pub open spec fn replaced(self, line: Seq<char>) -> Seq<Seq<char>> {
        Seq::new(self.replace.len(), |i: int| regex_replace(self.commit, line, self.replace[i]))
    }

    /// Where the rule stands after a commit whose first group captured
    /// `group`. A group that took no part counts as empty.
    pub open spec fn committed(self, p: Progress, group: Option<Seq<char>>) -> Progress {
        if self.end is Some {
            Progress {
                state: BlockRegexState::Committed,
                keep: Seq::empty(),
                prefix: match group {
                    Some(captured) => captured,
                    None => Seq::empty(),
                },
            }
        } else {
            Progress { state: BlockRegexState::Ready, keep: Seq::empty(), prefix: p.prefix }
        }
    }

    /// One line: where the rule stands after it, and the lines it releases.
    pub open spec fn step(self, p: Progress, line: Seq<char>) -> (Progress, Seq<Seq<char>>) {
        if p.state == BlockRegexState::Committed {
            if p.prefix.is_prefix_of(line) && matches_opt(
                self.end,
                line.skip(p.prefix.len() as int),
            ) {
                (
                    Progress { state: BlockRegexState::Ready, keep: p.keep, prefix: p.prefix },
                    Seq::empty(),
                )
            } else {
                (p, Seq::empty())
            }
        } else {
            match regex_first_group(self.commit, line) {
                Some(group) => (self.committed(p, group), self.replaced(line)),
                None => if matches_opt(self.start, line) {
                    (
                        Progress {
                            state: BlockRegexState::Started,
                            keep: p.keep.push(line),
                            prefix: p.prefix,
                        },
                        Seq::empty(),
                    )
                } else {
                    (
                        Progress {
                            state: BlockRegexState::Ready,
                            keep: Seq::empty(),
                            prefix: p.prefix,
                        },
                        p.keep.push(line),
                    )
                },
            }
        }
    }

    /// A batch of lines, one after the other.
    pub open spec fn run(self, p: Progress, lines: Seq<Seq<char>>) -> (Progress, Seq<Seq<char>>)
        decreases lines.len(),
    {
        if lines.len() == 0 {
            (p, Seq::empty())
        } else {
            let (before, released) = self.run(p, lines.drop_last());
            let (after, more) = self.step(before, lines.last());
            (after, released + more)
        }
    }

    /// What the rule makes of what its source handed out: a batch is run
    /// line by line. At the end of the text the lines still held back are
    /// released as a last batch, and there is nothing more after that.
    pub open spec fn digest(self, p: Progress, batch: Option<Seq<Seq<char>>>) -> (
        Progress,
        Option<Seq<Seq<char>>>,
    ) {
        match batch {
            Some(lines) => {
                let (after, released) = self.run(p, lines);
                (after, Some(released))
            },
            None => if p.keep.len() == 0 {
                (p, None)
            } else {
                (Progress { state: p.state, keep: Seq::empty(), prefix: p.prefix }, Some(p.keep))
            },
        }
    }
}

/// Every step keeps the lines held back to the started state.
pub proof fn lemma_step_wf(rule: Rule, p: Progress, line: Seq<char>)
    requires
        p.wf(),
    ensures
        rule.step(p, line).0.wf(),
{
}

/// A transformer that applies one rule to the lines of another.
pub struct BlockRegex<T: Transformer> {
    inner: T,
    start_re: Option<String>,
    commit_re: String,
    end_re: Option<String>,
    replace: Vec<String>,
    state: BlockRegexState,
    keep_lines: Vec<String>,
    prefix: String,
}

/// The text of a pattern that may be absent.
pub open spec fn opt_text(pattern: Option<&str>) -> Option<Seq<char>> {
    match pattern {
        Some(p) => Some(p@),
        None => None,
    }
}

/// The text of each of `items`.
pub open spec fn texts(items: Seq<&str>) -> Seq<Seq<char>> {
    Seq::new(items.len(), |i: int| items[i]@)
}

impl<T: Transformer> BlockRegex<T> {
    /// The rule that this transformer applies.
    pub closed spec fn rule(&self) -> Rule {
        Rule {
            start: match self.start_re {
                Some(p) => Some(p@),
                None => None,
            },
            commit: self.commit_re@,
            end: match self.end_re {
                Some(p) => Some(p@),
                None => None,
            },
            replace: text(self.replace@),
        }
    }

    /// Where the rule stands.
    pub closed spec fn progress(&self) -> Progress {
        Progress { state: self.state, keep: text(self.keep_lines@), prefix: self.prefix@ }
    }

    /// The transformer whose lines this one works on.
    pub closed spec fn inner(&self) -> T {
        self.inner
    }

    /// The patterns are regular expressions, and lines are held back only
    /// while the rule is started.
    pub open spec fn wf(&self) -> bool {
        self.rule().wf() && self.progress().wf()
    }

    /// A transformer that applies the rule made of the given patterns and
    /// replacements to the lines of `inner`.
    pub fn new(
        inner: T,
        start_re: Option<&str>,
        commit_re: &str,
        end_re: Option<&str>,
        replace: &[&str],
    ) -> (made: Self)
        requires
            regex_compiles(commit_re@),
            start_re matches Some(p) ==> regex_compiles(p@),
            end_re matches Some(p) ==> regex_compiles(p@),
        ensures
            made.wf(),
            made.inner() == inner,
            made.progress() == Progress::initial(),
            made.rule() == (Rule {
                start: opt_text(start_re),
                commit: commit_re@,
                end: opt_text(end_re),
                replace: texts(replace@),
            }),
    {
        let made = Self {
            inner,
            start_re: opt_str_to_string(start_re),
            commit_re: String::from_str(commit_re),
            end_re: opt_str_to_string(end_re),
            replace: arr_str_to_vec_string(replace),
            state: BlockRegexState::Ready,
            keep_lines: Vec::<String>::new(),
            prefix: String::new(),
        };
        assert(made.progress().keep =~= Seq::<Seq<char>>::empty());
        assert(made.progress().prefix =~= Seq::<char>::empty());
        assert(made.rule().replace =~= texts(replace@));
        made
    }

    /// The same as `new` where every pattern is a regular expression; else
    /// `inner` comes back untouched.
    pub fn try_new(
        inner: T,
        start_re: Option<&str>,
        commit_re: &str,
        end_re: Option<&str>,
        replace: &[&str],
    ) -> (made: Result<Self, T>)
        ensures
            made is Ok <==> {
                &&& regex_compiles(commit_re@)
                &&& start_re matches Some(p) ==> regex_compiles(p@)
                &&& end_re matches Some(p) ==> regex_compiles(p@)
            },
            made matches Ok(m) ==> {
                &&& m.wf()
                &&& m.inner() == inner
                &&& m.progress() == Progress::initial()
                &&& m.rule() == (Rule {
                    start: opt_text(start_re),
                    commit: commit_re@,
                    end: opt_text(end_re),
                    replace: texts(replace@),
                })
            },
            made matches Err(back) ==> back == inner,
    {
        if compiles(commit_re) && opt_compiles(start_re) && opt_compiles(end_re) {
            Ok(Self::new(inner, start_re, commit_re, end_re, replace))
        } else {
            Err(inner)
        }
    }

    /// Releases one line for each replacement of the rule, made from the
    /// committed `line`.
    fn push_replaced(&self, line: &str, dst: &mut Vec<String>)
        requires
            self.rule().wf(),
        ensures
            text(final(dst)@) == text(old(dst)@) + self.rule().replaced(line@),
    {
        let mut i: usize = 0;

        while i < self.replace.len()
            invariant
                self.rule().wf(),
                i <= self.replace@.len(),
                dst@.len() == old(dst)@.len() + i,
                forall|j: int| 0 <= j < old(dst)@.len() ==> dst@[j] == old(dst)@[j],
                forall|j: int|
                    0 <= j < i ==> dst@[old(dst)@.len() + j]@ == regex_replace(
                        self.commit_re@,
                        line@,
                        self.replace@[j]@,
                    ),
            decreases self.replace@.len() - i,
        {
            dst.push(replace(self.commit_re.as_str(), line, self.replace[i].as_str()));
            i += 1;
        }

        assert(text(dst@) =~= text(old(dst)@) + self.rule().replaced(line@));
    }

    /// Takes one line: moves the rule on and appends to `dst` the lines
    /// that it releases.
    fn feed(&mut self, line: &String, dst: &mut Vec<String>)
        requires
            old(self).wf(),
        ensures
            final(self).wf(),
            final(self).rule() == old(self).rule(),
            final(self).inner() == old(self).inner(),
            final(self).progress() == old(self).rule().step(old(self).progress(), line@).0,
            text(final(dst)@) == text(old(dst)@) + old(self).rule().step(
                old(self).progress(),
                line@,
            ).1,
    {
        match self.state {
            BlockRegexState::Ready => {
                let match_start = match_opt_regex(&self.start_re, line.as_str());
                let match_commit = first_group(self.commit_re.as_str(), line.as_str());

                if let Some(group) = match_commit {
                    self.push_replaced(line.as_str(), dst);

                    if self.end_re.is_some() {
                        self.state = BlockRegexState::Committed;
                        self.prefix = group_or_empty(group);
                    }
                    assert(final(self).progress().keep =~= Seq::<Seq<char>>::empty());
                } else if match_start {
                    self.state = BlockRegexState::Started;
                    self.keep_lines.push(line.clone());
                    assert(final(self).progress().keep =~= old(self).progress().keep.push(line@));
                    assert(text(dst@) =~= text(old(dst)@) + Seq::<Seq<char>>::empty());
                } else {
                    dst.push(line.clone());
                    assert(text(dst@) =~= text(old(dst)@) + old(self).progress().keep.push(line@));
                    assert(final(self).progress().keep =~= Seq::<Seq<char>>::empty());
                }
            },
            BlockRegexState::Started => {
                let match_start = match_opt_regex(&self.start_re, line.as_str());
                let match_commit = first_group(self.commit_re.as_str(), line.as_str());

                if let Some(group) = match_commit {
                    if self.end_re.is_some() {
                        self.state = BlockRegexState::Committed;
                        self.prefix = group_or_empty(group);
                    } else {
                        self.state = BlockRegexState::Ready;
                    }

                    self.keep_lines.clear();
                    self.push_replaced(line.as_str(), dst);
                    assert(final(self).progress().keep =~= Seq::<Seq<char>>::empty());
                } else if !match_start {
                    self.state = BlockRegexState::Ready;
                    dst.append(&mut self.keep_lines);
                    dst.push(line.clone());
                    assert(text(dst@) =~= text(old(dst)@) + old(self).progress().keep.push(line@));
                    assert(final(self).progress().keep =~= Seq::<Seq<char>>::empty());
                } else {
                    self.keep_lines.push(line.clone());
                    assert(final(self).progress().keep =~= old(self).progress().keep.push(line@));
                    assert(text(dst@) =~= text(old(dst)@) + Seq::<Seq<char>>::empty());
                }
            },
            BlockRegexState::Committed => {
                if let Some(truncated) = strip_prefix(line.as_str(), self.prefix.as_str()) {
                    assert(line@.skip(self.prefix@.len() as int) =~= truncated@);
                    assert(self.prefix@ =~= line@.subrange(0, self.prefix@.len() as int));
                    let match_end = match_opt_regex(&self.end_re, truncated);

                    if match_end {
                        self.state = BlockRegexState::Ready;
                    }
                }
                assert(text(dst@) =~= text(old(dst)@) + Seq::<Seq<char>>::empty());
            },
        }
    }

    /// Makes of a batch that the source handed out, or of the end of its
    /// text, what this transformer hands out in turn.
    pub fn transform(&mut self, batch: Option<Vec<String>>) -> (out: Option<Vec<String>>)
        requires
            old(self).wf(),
        ensures
            final(self).wf(),
            final(self).rule() == old(self).rule(),
            final(self).inner() == old(self).inner(),
            final(self).progress() == old(self).rule().digest(
                old(self).progress(),
                batch_text(batch),
            ).0,
            batch_text(out) == old(self).rule().digest(old(self).progress(), batch_text(batch)).1,
    {
        let mut dst_lines = Vec::<String>::new();

        if let Some(src_lines) = batch {
            let ghost rule = self.rule();
            let ghost begin = self.progress();
            let ghost lines = text(src_lines@);
            let mut i: usize = 0;

            while i < src_lines.len()
                invariant
                    i <= src_lines@.len(),
                    lines == text(src_lines@),
                    self.wf(),
                    self.rule() == rule,
                    self.inner() == old(self).inner(),
                    self.progress() == rule.run(begin, lines.take(i as int)).0,
                    text(dst_lines@) == rule.run(begin, lines.take(i as int)).1,
                decreases src_lines@.len() - i,
            {
                assert(lines.take(i + 1).drop_last() =~= lines.take(i as int));
                assert(lines.take(i + 1).last() == src_lines@[i as int]@);
                self.feed(&src_lines[i], &mut dst_lines);
                i += 1;
            }

            assert(lines.take(i as int) =~= lines);
            Some(dst_lines)
        } else {
            if self.keep_lines.is_empty() {
                None
            } else {
                dst_lines.append(&mut self.keep_lines);
                assert(text(dst_lines@) =~= old(self).progress().keep);
                assert(final(self).progress().keep =~= Seq::<Seq<char>>::empty());
                Some(dst_lines)
            }
        }
    }
}

impl<T: Transformer> Transformer for BlockRegex<T> {
    open spec fn inv(&self) -> bool {
        self.wf() && self.inner().inv()
    }

    /// Asks the inner transformer for its next batch and hands out what
    /// `transform` makes of it: whatever the inner transformer handed out,
    /// the rule digested it.
    fn next_lines(&mut self) -> (batch: Option<Vec<String>>)
        ensures
            final(self).rule() == old(self).rule(),
            exists|handed: Option<Seq<Seq<char>>>|
                {
                    let digested = #[trigger] old(self).rule().digest(old(self).progress(), handed);
                    final(self).progress() == digested.0 && batch_text(batch) == digested.1
                },
    {
        let handed = self.inner.next_lines();
        let ghost begin = self.progress();
        let batch = self.transform(handed);
        assert(self.progress() == old(self).rule().digest(begin, batch_text(handed)).0);
        batch
    }
}

/// The text of a batch, where there is one.
pub open spec fn batch_text(batch: Option<Vec<String>>) -> Option<Seq<Seq<char>>> {
    match batch {
        Some(lines) => Some(text(lines@)),
        None => None,
    }
}

/// What a group captured; nothing where it took no part in the match.
fn group_or_empty(group: Option<String>) -> (captured: String)
    ensures
        group matches Some(t) ==> captured@ == t@,
        group is None ==> captured@ == Seq::<char>::empty(),
{
    match group {
        Some(captured) => captured,
        None => String::new(),
    }
}

/// Whether the pattern is there and matches `line`.
fn match_opt_regex(opt_pattern: &Option<String>, line: &str) -> (found: bool)
    requires
        opt_pattern matches Some(p) ==> regex_compiles(p@),
    ensures
        found == (opt_pattern matches Some(p) && regex_is_match(p@, line@)),
{
    if let Some(pattern) = opt_pattern {
        if is_match(pattern.as_str(), line) {
            return true;
        }
    }

    false
}

/// Whether a pattern that may be absent is a regular expression; an absent
/// one is in order.
fn opt_compiles(pattern: Option<&str>) -> (accepted: bool)
    ensures
        accepted <==> (pattern matches Some(p) ==> regex_compiles(p@)),
{
    if let Some(p) = pattern {
        compiles(p)
    } else {
        true
    }
}

/// An owned copy of a pattern that may be absent.
fn opt_str_to_string(value: Option<&str>) -> (owned: Option<String>)
    ensures
        owned is Some <==> value is Some,
        owned matches Some(p) ==> p@ == value->0@,
{
    if let Some(pattern) = value {
        Some(String::from_str(pattern))
    } else {
        None
    }
}

/// An owned copy of each of `value`, in order.
pub fn arr_str_to_vec_string(value: &[&str]) -> (v: Vec<String>)
    ensures
        text(v@) == texts(value@),
{
    let mut v = Vec::<String>::new();
    let mut i: usize = 0;

    while i < value.len()
        invariant
            i <= value@.len(),
            v@.len() == i,
            forall|j: int| 0 <= j < i ==> v@[j]@ == value@[j]@,
        decreases value@.len() - i,
    {
        v.push(String::from_str(value[i]));
        i += 1;
    }

    assert(text(v@) =~= texts(value@));
    v
}

} // verus!
