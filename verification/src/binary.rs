//! The node binary: which release is the latest, and where it is fetched from.
//!
//! The latest release is read from what `git ls-remote --refs --tags` prints
//! for the node's repository: the name after the last `/` of the last word
//! of the last line.

use crate::text::{chars_of, is_whitespace, scan_back_space, scan_back_to, string_of_range, tail_while};
use vstd::prelude::*;

verus! {

/// The repository whose tags name the releases.
pub const REPOSITORY: &'static str = "https://github.com/selendra/selendra.git";

/// Where release downloads live, before the version.
pub const RELEASES: &'static str = "https://github.com/selendra/selendra/releases/download/";

/// The name of the binary in a release.
pub const ASSET: &'static str = "/selendra";

/// The last line of `s`, as the last item of `str::lines` gives it: a final
/// `\n` ends the last line rather than starting an empty one, and a `\r`
/// before that `\n` belongs to the line break. Text with no line has none.
pub open spec fn last_line(s: Seq<char>) -> Option<Seq<char>> {
    if s.len() == 0 {
        None
    } else if s.last() == '\n' {
        let line = tail_while(s.drop_last(), |x: char| x != '\n');
        if line.len() > 0 && line.last() == '\r' {
            Some(line.drop_last())
        } else {
            Some(line)
        }
    } else {
        Some(tail_while(s, |x: char| x != '\n'))
    }
}

/// `s` without the white space at its end.
pub open spec fn trim_end(s: Seq<char>) -> Seq<char> {
    s.take(s.len() - tail_while(s, |x: char| is_whitespace(x)).len())
}

/// The last word of `s`, as the last item of `str::split_whitespace` gives
/// it; text that is all white space has none.
pub open spec fn last_word(s: Seq<char>) -> Option<Seq<char>> {
    let t = trim_end(s);
    if t.len() == 0 {
        None
    } else {
        Some(tail_while(t, |x: char| !is_whitespace(x)))
    }
}

/// What follows the last `/` of `s`, or all of `s` if it holds none.
pub open spec fn after_last_slash(s: Seq<char>) -> Seq<char> {
    tail_while(s, |x: char| x != '/')
}

/// The release that a tag listing names last.
pub open spec fn latest_tag(listing: Seq<char>) -> Option<Seq<char>> {
    match last_line(listing) {
        None => None,
        Some(line) => match last_word(line) {
            None => None,
            Some(word) => Some(after_last_slash(word)),
        },
    }
}

/// The latest release that a tag listing names: the text after the last
/// `/` of the last word of its last line. `None` when the listing has no
/// line, or its last line no word.
pub fn latest_version(listing: &str) -> (v: Option<String>)
    ensures
        match v {
            Some(s) => latest_tag(listing@) == Some(s@),
            None => latest_tag(listing@) is None,
        },
{
    let chars = chars_of(listing);
    let n = chars.len();
    if n == 0 {
        return None;
    }
    let broken = chars[n - 1] == '\n';
    let end = if broken { n - 1 } else { n };
    let start = scan_back_to(&chars, 0, end, '\n');
    let ghost s = listing@;
    proof {
        if broken {
            assert(s.drop_last() =~= chars@.subrange(0, end as int));
        } else {
            assert(s =~= chars@.subrange(0, end as int));
        }
    }
    let mut stop = end;
    if broken && stop > start && chars[stop - 1] == '\r' {
        stop = stop - 1;
        assert(chars@.subrange(start as int, end as int).drop_last() =~= chars@.subrange(
            start as int,
            stop as int,
        ));
    }
    let ghost line = chars@.subrange(start as int, stop as int);
    assert(last_line(s) == Some(line));
    let trimmed = scan_back_space(&chars, start, stop, true);
    assert(chars@.subrange(trimmed as int, stop as int) == tail_while(line, |x: char| is_whitespace(x) == true));
    assert((|x: char| is_whitespace(x) == true) =~= (|x: char| is_whitespace(x)));
    assert(trim_end(line) =~= chars@.subrange(start as int, trimmed as int));
    if trimmed == start {
        return None;
    }
    let word_start = scan_back_space(&chars, start, trimmed, false);
    assert((|x: char| is_whitespace(x) == false) =~= (|x: char| !is_whitespace(x)));
    let slash = scan_back_to(&chars, word_start, trimmed, '/');
    Some(string_of_range(&chars, slash, trimmed))
}

/// The end of `x + y` whose characters satisfy `keep` is `y`, when all of
/// `y` satisfies `keep` and `x` is empty or ends with a character that does not.
proof fn lemma_tail_while_concat(x: Seq<char>, y: Seq<char>, keep: spec_fn(char) -> bool)
    requires
        forall|i: int| 0 <= i < y.len() ==> keep(#[trigger] y[i]),
        x.len() == 0 || !keep(x.last()),
    ensures
        tail_while(x + y, keep) == y,
    decreases y.len(),
{
    if y.len() == 0 {
        assert(x + y =~= x);
    } else {
        let z = y.drop_last();
        assert forall|i: int| 0 <= i < z.len() implies keep(#[trigger] z[i]) by {
            assert(z[i] == y[i]);
        }
        lemma_tail_while_concat(x, z, keep);
        assert((x + y).drop_last() =~= x + z);
        assert((x + y).last() == y.last());
        assert(keep(y[y.len() - 1]));
        assert(z.push(y.last()) =~= y);
    }
}

/// The last line of a text is the line after its last line break: when
/// `before` is empty or ends with a line break, and `line` holds no line
/// break, `before + line` and `before + line + "\n"` both have `line` as
/// their last line (the latter if `line` does not end with a carriage
/// return, and the former if `line` is not empty).
pub proof fn lemma_last_line_is_last(before: Seq<char>, line: Seq<char>)
    requires
        before.len() == 0 || before.last() == '\n',
        forall|i: int| 0 <= i < line.len() ==> #[trigger] line[i] != '\n',
    ensures
        line.len() == 0 || line.last() != '\r' ==> last_line(before + line + seq!['\n']) == Some(line),
        line.len() > 0 ==> last_line(before + line) == Some(line),
{
    let keep = |x: char| x != '\n';
    assert forall|i: int| 0 <= i < line.len() implies keep(#[trigger] line[i]) by {}
    lemma_tail_while_concat(before, line, keep);
    let s = before + line + seq!['\n'];
    assert(s.drop_last() =~= before + line);
    assert(s.last() == '\n');
    if line.len() > 0 {
        assert((before + line).last() == line.last());
    }
}

/// The release named by a tag listing is the name after the last `/` of the
/// reference on its last line: when `before` is empty or ends with a line
/// break, `hash` holds no line break, `reference` no white space, and
/// `version` no white space and no `/`, the listing
/// `before + hash + "\t" + reference + "/" + version + "\n"` names `version`.
pub proof fn lemma_latest_tag_of_last_line(
    before: Seq<char>,
    hash: Seq<char>,
    reference: Seq<char>,
    version: Seq<char>,
)
    requires
        before.len() == 0 || before.last() == '\n',
        forall|i: int| 0 <= i < hash.len() ==> #[trigger] hash[i] != '\n',
        forall|i: int| 0 <= i < reference.len() ==> !is_whitespace(#[trigger] reference[i]),
        forall|i: int|
            0 <= i < version.len() ==> !is_whitespace(#[trigger] version[i]) && version[i] != '/',
    ensures
        latest_tag(before + hash + seq!['\t'] + reference + seq!['/'] + version + seq!['\n'])
            == Some(version),
{
    let word = reference + seq!['/'] + version;
    let line = hash + seq!['\t'] + word;
    assert forall|i: int| 0 <= i < word.len() implies !is_whitespace(#[trigger] word[i]) by {
        if i < reference.len() {
            assert(word[i] == reference[i]);
        } else if i > reference.len() {
            assert(word[i] == version[i - reference.len() - 1]);
        }
    }
    assert forall|i: int| 0 <= i < line.len() implies #[trigger] line[i] != '\n' by {
        if i < hash.len() {
            assert(line[i] == hash[i]);
        } else if i > hash.len() {
            assert(line[i] == word[i - hash.len() - 1]);
        }
    }
    assert(line.last() == word.last());
    lemma_last_line_is_last(before, line);
    assert(before + hash + seq!['\t'] + reference + seq!['/'] + version + seq!['\n'] =~= before
        + line + seq!['\n']);
    // The line ends with a character of the word, which is no white space.
    let ws = |x: char| is_whitespace(x);
    lemma_tail_while_concat(line, Seq::<char>::empty(), ws);
    assert(line + Seq::<char>::empty() =~= line);
    assert(trim_end(line) =~= line);
    let not_ws = |x: char| !is_whitespace(x);
    assert(line =~= (hash + seq!['\t']) + word);
    lemma_tail_while_concat(hash + seq!['\t'], word, not_ws);
    assert(last_word(line) == Some(word));
    let not_slash = |x: char| x != '/';
    assert(word =~= (reference + seq!['/']) + version);
    lemma_tail_while_concat(reference + seq!['/'], version, not_slash);
}

/// Where the binary of release `version` is downloaded from.
pub fn release_url(version: &str) -> (url: String)
    ensures
        url@ == RELEASES@ + version@ + ASSET@,
{
    let mut url = RELEASES.to_owned();
    url.append(version);
    url.append(ASSET);
    url
}

} // verus!
