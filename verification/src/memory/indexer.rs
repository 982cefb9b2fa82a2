//! Markdown notes: how a note's title and tags are read from its text.
use crate::memory::bm25::{char_is_alphanumeric, is_alnum};
use crate::memory::types::{contains_text, opt_text, texts};
use crate::text::{
    ascii_lower_char, char_is_whitespace, chars_of, is_space, lowercase, owned, push_char,
    string_from_chars, to_lower, trim_text, trimmed,
};
use vstd::prelude::*;

verus! {

/// Information parsed from a Markdown document.
#[derive(Debug, Clone, PartialEq, Eq)]
pub struct ParsedMarkdown {
    pub title: String,
    pub content: String,
    pub tags: Vec<String>,
    pub file_path: String,
}

/// Reads titles and tags out of Markdown notes.
pub struct VaultIndexer;

// ---------------------------------------------------------------------------
// Titles
// ---------------------------------------------------------------------------

/// The pieces of `s` between line feeds, in order (a text without line feed is
/// one piece).
pub open spec fn split_lines(s: Seq<char>) -> Seq<Seq<char>>
    decreases s.len(),
{
    if s.len() == 0 {
        seq![Seq::<char>::empty()]
    } else {
        let r = split_lines(s.drop_last());
        if s.last() == '\n' {
            r.push(Seq::<char>::empty())
        } else {
            r.update(r.len() - 1, r.last().push(s.last()))
        }
    }
}

/// There is always at least one piece.
proof fn lemma_split_lines_len(s: Seq<char>)
    ensures
        split_lines(s).len() >= 1,
    decreases s.len(),
{
    if s.len() > 0 {
        lemma_split_lines_len(s.drop_last());
    }
}

/// The title a line announces: a trimmed line that starts with `# ` names the
/// (trimmed) rest, when that is not empty.
pub open spec fn heading_title(line: Seq<char>) -> Option<Seq<char>> {
    let t = trimmed(line);
    if t.len() >= 2 && t[0] == '#' && t[1] == ' ' {
        let title = trimmed(t.skip(2));
        if title.len() > 0 {
            Some(title)
        } else {
            None
        }
    } else {
        None
    }
}

/// A line announces a title only as a top-level heading: trimmed, it starts with
/// `#` and a space, and the title is the rest, trimmed and not empty. A line
/// whose trimmed form starts with `##` (a lower-level heading) announces none.
pub proof fn law_heading_top_level_only(line: Seq<char>)
    ensures
        heading_title(line) matches Some(t) ==> {
            &&& trimmed(line).len() >= 2
            &&& trimmed(line)[0] == '#'
            &&& trimmed(line)[1] == ' '
            &&& t == trimmed(trimmed(line).skip(2))
            &&& t.len() > 0
        },
        trimmed(line).len() >= 2 && trimmed(line)[0] == '#' && trimmed(line)[1] == '#'
            ==> heading_title(line) is None,
{
}

/// The title announced by the first line that announces one.
pub open spec fn first_heading(lines: Seq<Seq<char>>) -> Option<Seq<char>>
    decreases lines.len(),
{
    if lines.len() == 0 {
        None
    } else {
        match first_heading(lines.drop_last()) {
            Some(t) => Some(t),
            None => heading_title(lines.last()),
        }
    }
}

/// The first heading is the title of the first line that announces one: when no
/// line announces a title there is none, and otherwise it is the title of some
/// line, all lines before which announce none.
pub proof fn law_first_heading(lines: Seq<Seq<char>>)
    ensures
        (forall|i: int| 0 <= i < lines.len() ==> #[trigger] heading_title(lines[i]) is None)
            <==> first_heading(lines) is None,
        first_heading(lines) matches Some(t) ==> exists|i: int|
            0 <= i < lines.len() && heading_title(lines[i]) == Some(t) && forall|j: int|
                0 <= j < i ==> #[trigger] heading_title(lines[j]) is None,
    decreases lines.len(),
{
    if lines.len() > 0 {
        let rest = lines.drop_last();
        law_first_heading(rest);
        if forall|i: int| 0 <= i < lines.len() ==> #[trigger] heading_title(lines[i]) is None {
            assert forall|i: int| 0 <= i < rest.len() implies #[trigger] heading_title(rest[i]) is None by {
                assert(rest[i] == lines[i]);
            }
            assert(heading_title(lines[lines.len() - 1]) is None);
        }
        if first_heading(lines) is None {
            assert forall|i: int| 0 <= i < lines.len() implies #[trigger] heading_title(lines[i]) is None by {
                if i < rest.len() {
                    assert(rest[i] == lines[i]);
                } else {
                    assert(lines.last() == lines[i]);
                }
            }
        }
        match first_heading(rest) {
            Some(t) => {
                let i = choose|i: int|
                    0 <= i < rest.len() && heading_title(rest[i]) == Some(t) && forall|j: int|
                        0 <= j < i ==> #[trigger] heading_title(rest[j]) is None;
                assert(rest[i] == lines[i]);
                assert forall|j: int| 0 <= j < i implies #[trigger] heading_title(lines[j]) is None by {
                    assert(rest[j] == lines[j]);
                }
            },
            None => {
                if first_heading(lines) is Some {
                    let i = lines.len() - 1;
                    assert(lines.last() == lines[i]);
                    assert forall|j: int| 0 <= j < i implies #[trigger] heading_title(lines[j]) is None by {
                        assert(rest[j] == lines[j]);
                    }
                }
            },
        }
    }
}

/// A note without a top-level heading is titled by its file stem (or
/// `Untitled Document` when the path has none).
pub proof fn law_title_without_heading(content: Seq<char>, path: Seq<char>)
    requires
        forall|i: int| 0 <= i < split_lines(content).len() ==> #[trigger] heading_title(
            split_lines(content)[i],
        ) is None,
    ensures
        title_for(content, path) == match file_stem_of(path) {
            Some(stem) => stem,
            None => "Untitled Document"@,
        },
{
    law_first_heading(split_lines(content));
}

/// The file name of a path without its extension, as `Path::file_stem` reads it.
pub uninterp spec fn file_stem_of(path: Seq<char>) -> Option<Seq<char>>;

/// `Path::file_stem`, read as text: the file name without its final extension,
/// or `None` when the path has no file name. The path comes in as UTF-8, so the
/// stem is UTF-8 as well.
#[verifier::external_body]
fn path_file_stem(path: &str) -> (r: Option<String>)
    ensures
        opt_text(r) == file_stem_of(path@),
{
    std::path::Path::new(path).file_stem().and_then(|s| s.to_str()).map(|s| s.to_string())
}

/// The title of a note: its first `# ` heading; failing that the file stem of its
/// path; failing that `Untitled Document`.
pub open spec fn title_for(content: Seq<char>, path: Seq<char>) -> Seq<char> {
    match first_heading(split_lines(content)) {
        Some(t) => t,
        None => match file_stem_of(path) {
            Some(stem) => stem,
            None => "Untitled Document"@,
        },
    }
}

/// The characters of `cs` from position `start` on, as a string.
fn suffix_text(cs: &Vec<char>, start: usize) -> (r: String)
    requires
        start <= cs@.len(),
    ensures
        r@ == cs@.skip(start as int),
{
    let mut r = String::new();
    let mut i: usize = start;
    assert(r@ =~= cs@.subrange(start as int, start as int));
    while i < cs.len()
        invariant
            start <= i <= cs@.len(),
            r@ == cs@.subrange(start as int, i as int),
        decreases cs@.len() - i,
    {
        push_char(&mut r, cs[i]);
        assert(cs@.subrange(start as int, i as int).push(cs@[i as int]) =~= cs@.subrange(
            start as int,
            i + 1,
        ));
        i = i + 1;
    }
    assert(cs@.subrange(start as int, cs@.len() as int) =~= cs@.skip(start as int));
    r
}

/// The title a line announces, if any.
fn heading_of(line: &Vec<char>) -> (r: Option<String>)
    ensures
        opt_text(r) == heading_title(line@),
{
    let s = string_from_chars(line.as_slice());
    let t = trim_text(s.as_str());
    if t.len() >= 2 && t[0] == '#' && t[1] == ' ' {
        let rest = suffix_text(&t, 2);
        let title = trim_text(rest.as_str());
        if title.len() > 0 {
            Some(string_from_chars(title.as_slice()))
        } else {
            None
        }
    } else {
        None
    }
}

impl VaultIndexer {
    /// The title of a note with text `content` stored at `file_path`: the first
    /// line that, trimmed, starts with `# ` and has a non-empty trimmed rest;
    /// otherwise the path's file stem; otherwise `Untitled Document`.
    pub fn extract_title(content: &str, file_path: &str) -> (r: String)
        ensures
            r@ == title_for(content@, file_path@),
    {
        let cs = chars_of(content);
        let mut cur: Vec<char> = Vec::new();
        let mut found: Option<String> = None;
        let mut i: usize = 0;
        assert(cs@.take(0) =~= Seq::<char>::empty());
        assert(split_lines(cs@.take(0)).drop_last() =~= Seq::<Seq<char>>::empty());
        while i < cs.len()
            invariant
                i <= cs@.len(),
                cs@ == content@,
                split_lines(cs@.take(i as int)).len() >= 1,
                cur@ == split_lines(cs@.take(i as int)).last(),
                opt_text(found) == first_heading(split_lines(cs@.take(i as int)).drop_last()),
            decreases cs@.len() - i,
        {
            let c = cs[i];
            let ghost before = split_lines(cs@.take(i as int));
            assert(cs@.take(i + 1).drop_last() =~= cs@.take(i as int));
            assert(cs@.take(i + 1).last() == c);
            if c == '\n' {
                assert(split_lines(cs@.take(i + 1)).drop_last() =~= before);
                assert(before =~= before.drop_last().push(before.last()));
                if found.is_none() {
                    found = heading_of(&cur);
                }
                cur = Vec::new();
                assert(cur@ =~= Seq::<char>::empty());
            } else {
                assert(split_lines(cs@.take(i + 1)).drop_last() =~= before.drop_last());
                cur.push(c);
            }
            i = i + 1;
        }
        assert(cs@.take(cs@.len() as int) =~= cs@);
        let ghost lines = split_lines(cs@);
        assert(lines =~= lines.drop_last().push(lines.last()));
        if found.is_none() {
            found = heading_of(&cur);
        }
        match found {
            Some(t) => t,
            None => match path_file_stem(file_path) {
                Some(stem) => stem,
                None => {
                    proof {
                        reveal_strlit("Untitled Document");
                    }
                    owned("Untitled Document")
                },
            },
        }
    }
}

// ---------------------------------------------------------------------------
// Tags
// ---------------------------------------------------------------------------

/// Reading `s` from the left: the finished words (runs of non-white-space
/// characters) and the word still open at the end.
pub open spec fn scan_words(s: Seq<char>) -> (Seq<Seq<char>>, Seq<char>)
    decreases s.len(),
{
    if s.len() == 0 {
        (Seq::empty(), Seq::empty())
    } else {
        let (done, open) = scan_words(s.drop_last());
        if !is_space(s.last()) {
            (done, open.push(s.last()))
        } else if open.len() > 0 {
            (done.push(open), Seq::empty())
        } else {
            (done, Seq::empty())
        }
    }
}

/// The white-space separated words of `s`, in order.
pub open spec fn words_of(s: Seq<char>) -> Seq<Seq<char>> {
    let (done, open) = scan_words(s);
    if open.len() > 0 {
        done.push(open)
    } else {
        done
    }
}

/// Characters stripped from both ends of a tag: all but letters, digits, `_`
/// and `-`.
pub open spec fn tag_edge(c: char) -> bool {
    !is_alnum(c) && c != '_' && c != '-'
}

/// The text without its leading edge characters.
pub open spec fn strip_front(s: Seq<char>) -> Seq<char>
    decreases s.len(),
{
    if s.len() > 0 && tag_edge(s[0]) {
        strip_front(s.drop_first())
    } else {
        s
    }
}

/// The text without its trailing edge characters.
pub open spec fn strip_back(s: Seq<char>) -> Seq<char>
    decreases s.len(),
{
    if s.len() > 0 && tag_edge(s.last()) {
        strip_back(s.drop_last())
    } else {
        s
    }
}

/// The tag a word carries: a word of at least two characters starting with `#`
/// names its rest, stripped of edge characters and lowercased, when that is not
/// empty.
pub open spec fn tag_of(word: Seq<char>) -> Option<Seq<char>> {
    if word.len() > 1 && word[0] == '#' {
        let t = lowercase(strip_back(strip_front(word.skip(1))));
        if t.len() > 0 {
            Some(t)
        } else {
            None
        }
    } else {
        None
    }
}

/// The distinct tags of a word sequence, in order of first appearance.
pub open spec fn collect_tags(words: Seq<Seq<char>>) -> Seq<Seq<char>>
    decreases words.len(),
{
    if words.len() == 0 {
        Seq::empty()
    } else {
        let acc = collect_tags(words.drop_last());
        match tag_of(words.last()) {
            Some(t) => if acc.contains(t) {
                acc
            } else {
                acc.push(t)
            },
            None => acc,
        }
    }
}

/// The tags of a note: each distinct tag once; each comes from a word of the
/// note that starts with `#`; and every such word that names a tag contributes
/// it.
pub proof fn law_collect_tags(words: Seq<Seq<char>>)
    ensures
        forall|i: int, j: int|
            0 <= i < j < collect_tags(words).len() ==> collect_tags(words)[i] != collect_tags(
                words,
            )[j],
        forall|i: int|
            #![trigger collect_tags(words)[i]]
            0 <= i < collect_tags(words).len() ==> exists|k: int|
                0 <= k < words.len() && words[k].len() > 1 && words[k][0] == '#' && #[trigger] tag_of(
                    words[k],
                ) == Some(collect_tags(words)[i]),
        forall|k: int|
            0 <= k < words.len() && #[trigger] tag_of(words[k]) is Some ==> collect_tags(
                words,
            ).contains(tag_of(words[k])->0),
    decreases words.len(),
{
    if words.len() > 0 {
        let rest = words.drop_last();
        law_collect_tags(rest);
        let acc = collect_tags(rest);
        let w = words.last();
        assert(w == words[words.len() - 1]);
        assert forall|k: int| 0 <= k < rest.len() implies rest[k] == words[k] by {}
        let out = collect_tags(words);
        assert forall|i: int| #![trigger out[i]] 0 <= i < out.len() implies exists|k: int|
            0 <= k < words.len() && words[k].len() > 1 && words[k][0] == '#' && #[trigger] tag_of(
                words[k],
            ) == Some(out[i]) by {
            if i < acc.len() {
                assert(out[i] == acc[i]);
                let k = choose|k: int|
                    0 <= k < rest.len() && rest[k].len() > 1 && rest[k][0] == '#' && #[trigger] tag_of(
                        rest[k],
                    ) == Some(acc[i]);
                assert(words[k] == rest[k]);
            } else {
                assert(tag_of(words[words.len() - 1]) == Some(out[i]));
            }
        }
        assert forall|k: int| 0 <= k < words.len() && #[trigger] tag_of(words[k]) is Some implies out.contains(
            tag_of(words[k])->0,
        ) by {
            if k < rest.len() {
                assert(words[k] == rest[k]);
                assert(acc.contains(tag_of(rest[k])->0));
                let j = choose|j: int| 0 <= j < acc.len() && acc[j] == tag_of(rest[k])->0;
                assert(out[j] == acc[j]);
            } else {
                if let Some(t) = tag_of(w) {
                    if !acc.contains(t) {
                        assert(out[acc.len() as int] == t);
                    }
                }
            }
        }
    }
}

/// Whether `c` is stripped from the ends of a tag.
fn is_tag_edge(c: char) -> (r: bool)
    ensures
        r == tag_edge(c),
{
    !char_is_alphanumeric(c) && c != '_' && c != '-'
}

/// The tag a word carries, if any.
fn tag_from(word: &Vec<char>) -> (r: Option<String>)
    ensures
        opt_text(r) == tag_of(word@),
{
    if word.len() <= 1 || word[0] != '#' {
        return None;
    }
    let ghost rest = word@.skip(1);
    let mut lo: usize = 1;
    assert(word@.skip(1) =~= rest);
    while lo < word.len() && is_tag_edge(word[lo])
        invariant
            1 <= lo <= word@.len(),
            rest == word@.skip(1),
            strip_front(rest) == strip_front(word@.skip(lo as int)),
        decreases word@.len() - lo,
    {
        assert(word@.skip(lo as int).drop_first() =~= word@.skip(lo + 1));
        lo = lo + 1;
    }
    assert(strip_front(word@.skip(lo as int)) == word@.skip(lo as int));
    let mut hi: usize = word.len();
    while hi > lo && is_tag_edge(word[hi - 1])
        invariant
            1 <= lo <= hi <= word@.len(),
            strip_back(word@.skip(lo as int)) == strip_back(word@.subrange(lo as int, hi as int)),
        decreases hi - lo,
    {
        assert(word@.subrange(lo as int, hi as int).drop_last() =~= word@.subrange(
            lo as int,
            hi - 1,
        ));
        hi = hi - 1;
    }
    assert(word@.skip(lo as int) =~= word@.subrange(lo as int, word@.len() as int));
    let mut core = String::new();
    let mut i: usize = lo;
    assert(core@ =~= word@.subrange(lo as int, lo as int));
    while i < hi
        invariant
            lo <= i <= hi <= word@.len(),
            core@ == word@.subrange(lo as int, i as int),
        decreases hi - i,
    {
        push_char(&mut core, word[i]);
        assert(word@.subrange(lo as int, i as int).push(word@[i as int]) =~= word@.subrange(
            lo as int,
            i + 1,
        ));
        i = i + 1;
    }
    assert(strip_back(word@.subrange(lo as int, hi as int)) == word@.subrange(lo as int, hi as int));
    let tag = to_lower(core.as_str());
    if tag.as_str().unicode_len() > 0 {
        Some(tag)
    } else {
        None
    }
}

/// Adds the tag `word` carries, unless it is already listed.
fn note_tag(tags: &mut Vec<String>, word: &Vec<char>)
    ensures
        texts(final(tags)@) == match tag_of(word@) {
            Some(t) => if texts(old(tags)@).contains(t) {
                texts(old(tags)@)
            } else {
                texts(old(tags)@).push(t)
            },
            None => texts(old(tags)@),
        },
{
    match tag_from(word) {
        Some(t) => {
            if !contains_text(tags, t.as_str()) {
                let ghost before = tags@;
                tags.push(t);
                assert(texts(tags@) =~= texts(before).push(t@));
            }
        },
        None => {},
    }
}

/// ASCII case folding yields the lowercase letter `lower` exactly from `lower`
/// and from its uppercase form `upper`.
proof fn lemma_lower_is(c: char, lower: char, upper: char)
    requires
        'a' as u32 <= lower as u32 <= 'z' as u32,
        upper as u32 + 32 == lower as u32,
    ensures
        (ascii_lower_char(c) == lower) <==> (c == lower || c == upper),
{
    if 'A' as u32 <= c as u32 && c as u32 <= 'Z' as u32 {
        assert(ascii_lower_char(c) as u32 == c as u32 + 32);
    }
}

impl VaultIndexer {
    /// The distinct tags of a note, in order of first appearance: every
    /// white-space separated word of at least two characters that starts with `#`
    /// names the rest of it, stripped at both ends of everything but letters,
    /// digits, `_` and `-`, and lowercased; empty results are dropped.
    pub fn extract_tags(content: &str) -> (r: Vec<String>)
        ensures
            texts(r@) == collect_tags(words_of(content@)),
    {
        let cs = chars_of(content);
        let mut tags: Vec<String> = Vec::new();
        let mut cur: Vec<char> = Vec::new();
        let mut i: usize = 0;
        assert(cs@.take(0) =~= Seq::<char>::empty());
        assert(texts(tags@) =~= Seq::<Seq<char>>::empty());
        while i < cs.len()
            invariant
                i <= cs@.len(),
                cs@ == content@,
                texts(tags@) == collect_tags(scan_words(cs@.take(i as int)).0),
                cur@ == scan_words(cs@.take(i as int)).1,
            decreases cs@.len() - i,
        {
            let c = cs[i];
            let ghost done = scan_words(cs@.take(i as int)).0;
            assert(cs@.take(i + 1).drop_last() =~= cs@.take(i as int));
            assert(cs@.take(i + 1).last() == c);
            if !char_is_whitespace(c) {
                cur.push(c);
            } else if cur.len() > 0 {
                note_tag(&mut tags, &cur);
                assert(done.push(cur@).drop_last() =~= done);
                cur = Vec::new();
                assert(cur@ =~= Seq::<char>::empty());
            } else {
                assert(cur@ =~= Seq::<char>::empty());
            }
            i = i + 1;
        }
        assert(cs@.take(cs@.len() as int) =~= cs@);
        if cur.len() > 0 {
            let ghost done = scan_words(cs@).0;
            note_tag(&mut tags, &cur);
            assert(done.push(cur@).drop_last() =~= done);
        }
        tags
    }

    /// Reads a note: its title and tags as [`VaultIndexer::extract_title`] and
    /// [`VaultIndexer::extract_tags`] describe, with its text and path kept.
    pub fn parse_content(content: String, file_path: String) -> (r: ParsedMarkdown)
        ensures
            r.title@ == title_for(content@, file_path@),
            texts(r.tags@) == collect_tags(words_of(content@)),
            r.content@ == content@,
            r.file_path@ == file_path@,
    {
        let title = Self::extract_title(content.as_str(), file_path.as_str());
        let tags = Self::extract_tags(content.as_str());
        ParsedMarkdown { title, content, tags, file_path }
    }

    /// Whether a file extension marks a Markdown note: `md` in any letter case.
    pub fn is_markdown_extension(ext: &str) -> (r: bool)
        ensures
            r == (ext@.len() == 2 && ascii_lower_char(ext@[0]) == 'm' && ascii_lower_char(ext@[1])
                == 'd'),
    {
        let cs = chars_of(ext);
        if cs.len() != 2 {
            return false;
        }
        proof {
            lemma_lower_is(cs@[0], 'm', 'M');
            lemma_lower_is(cs@[1], 'd', 'D');
        }
        (cs[0] == 'm' || cs[0] == 'M') && (cs[1] == 'd' || cs[1] == 'D')
    }
}

} // verus!
