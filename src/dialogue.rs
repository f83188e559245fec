use vstd::prelude::*;
use vstd::string::{StrSliceExecFns, StringExecFns};
use vstd::utf8::encode_utf8;
use vstd::string::StringSliceAdditionalSpecFns;
use crate::text::{trim_spec, trim_text};

verus! {

/// `j` is where the speaker part of `line` ends: at its first `:`, or at its
/// end where it has none.
pub open spec fn is_speaker_end(line: Seq<char>, j: int) -> bool {
    &&& 0 <= j <= line.len()
    &&& forall|k: int| 0 <= k < j ==> #[trigger] line[k] != ':'
    &&& j == line.len() || line[j] == ':'
}

/// Whether `line`, a line of a script, is spoken by `speaker`: the text
/// before its first `:`, trimmed, is the speaker's name.
pub open spec fn spoken_by(line: Seq<char>, speaker: Seq<char>) -> bool {
    exists|j: int| is_speaker_end(line, j) && trim_spec(#[trigger] line.subrange(0, j), false) == speaker
}

/// The chunks closed so far and the chunk being filled, after reading `lines`.
pub open spec fn dialogue_state(lines: Seq<Seq<char>>, speaker: Seq<char>) -> (
    Seq<Seq<char>>,
    Seq<char>,
)
    decreases lines.len(),
{
    if lines.len() == 0 {
        (Seq::empty(), Seq::empty())
    } else {
        let prev = dialogue_state(lines.drop_last(), speaker);
        let line = lines.last();
        let t = trim_spec(line, false);
        if t.len() == 0 {
            if prev.1.len() > 0 {
                (prev.0.push(prev.1), Seq::empty())
            } else {
                prev
            }
        } else if spoken_by(line, speaker) {
            (prev.0, prev.1 + t + seq!['\n'])
        } else {
            prev
        }
    }
}

/// The dialogue of `speaker` in a script: runs of the speaker's lines,
/// trimmed and each ended by a newline, with blank lines closing a run.
/// Lines of other speakers are left out without closing the run.
pub open spec fn dialogue_spec(lines: Seq<Seq<char>>, speaker: Seq<char>) -> Seq<Seq<char>> {
    let s = dialogue_state(lines, speaker);
    if s.1.len() > 0 {
        s.0.push(s.1)
    } else {
        s.0
    }
}

pub fn is_spoken_by(line: &str, speaker: &str) -> (r: bool)
    ensures
        r == spoken_by(line@, speaker@),
{
    let n = line.unicode_len();
    let mut j: usize = 0;
    while j < n && line.get_char(j) != ':'
        invariant
            n == line@.len(),
            j <= n,
            forall|k: int| 0 <= k < j ==> #[trigger] line@[k] != ':',
        decreases n - j,
    {
        j = j + 1;
    }
    assert(is_speaker_end(line@, j as int));
    assert forall|j2: int| is_speaker_end(line@, j2) implies j2 == j by {
        if j2 < j {
            assert(line@[j2] != ':');
        } else if j2 > j {
            assert(line@[j as int] != ':');
        }
    }
    let who = trim_text(line.substring_char(0, j));
    let name = String::from_str(speaker);
    who.eq(&name)
}

/// The seq of views of `lines`.
pub open spec fn views(lines: Seq<String>) -> Seq<Seq<char>> {
    lines.map_values(|l: String| l@)
}

/// Groups the dialogue of `speaker` out of the lines of a script.
pub fn dialogue_chunks(lines: &Vec<String>, speaker: &str) -> (r: Vec<String>)
    ensures
        views(r@) == dialogue_spec(views(lines@), speaker@),
{
    let mut chunks: Vec<String> = Vec::new();
    let mut current = String::new();
    let mut i: usize = 0;
    while i < lines.len()
        invariant
            i <= lines@.len(),
            (views(chunks@), current@) == dialogue_state(views(lines@.subrange(0, i as int)), speaker@),
        decreases lines@.len() - i,
    {
        let line = &lines[i];
        let ghost prefix = views(lines@.subrange(0, i as int));
        let ghost next = views(lines@.subrange(0, i + 1));
        assert(next.drop_last() =~= prefix);
        assert(next.last() == line@);
        let t = trim_text(line.as_str());
        if t.unicode_len() == 0 {
            if current.unicode_len() > 0 {
                let done = current;
                chunks.push(done);
                current = String::new();
                assert(views(chunks@) =~= dialogue_state(prefix, speaker@).0.push(done@));
            }
        } else if is_spoken_by(line.as_str(), speaker) {
            current.append(t.as_str());
            current.append("\n");
            proof {
                reveal_strlit("\n");
            }
            assert(current@ =~= dialogue_state(prefix, speaker@).1 + t@ + seq!['\n']);
        }
        i = i + 1;
    }
    assert(lines@.subrange(0, lines@.len() as int) =~= lines@);
    if current.unicode_len() > 0 {
        let ghost before = views(chunks@);
        chunks.push(current);
        assert(views(chunks@) =~= before.push(dialogue_state(views(lines@), speaker@).1));
    }
    chunks
}

/// The non-blank lines among `lines`, trimmed, in order.
pub open spec fn nonblank_spec(lines: Seq<Seq<char>>) -> Seq<Seq<char>>
    decreases lines.len(),
{
    if lines.len() == 0 {
        Seq::empty()
    } else {
        let prev = nonblank_spec(lines.drop_last());
        let t = trim_spec(lines.last(), false);
        if t.len() > 0 {
            prev.push(t)
        } else {
            prev
        }
    }
}

/// The trimmed non-blank lines of a document's text, each one chunk.
pub fn nonblank_lines(lines: &Vec<String>) -> (r: Vec<String>)
    ensures
        views(r@) == nonblank_spec(views(lines@)),
{
    let mut out: Vec<String> = Vec::new();
    let mut i: usize = 0;
    while i < lines.len()
        invariant
            i <= lines@.len(),
            views(out@) == nonblank_spec(views(lines@.subrange(0, i as int))),
        decreases lines@.len() - i,
    {
        let ghost prefix = views(lines@.subrange(0, i as int));
        let ghost next = views(lines@.subrange(0, i + 1));
        assert(next.drop_last() =~= prefix);
        let t = trim_text(lines[i].as_str());
        if t.unicode_len() > 0 {
            let ghost before = views(out@);
            out.push(t);
            assert(views(out@) =~= before.push(t@));
        }
        i = i + 1;
    }
    assert(lines@.subrange(0, lines@.len() as int) =~= lines@);
    out
}

/// About how many bytes a packed chunk of document text holds.
pub const PACKED_CHUNK_BYTES: usize = 2000;

/// The length of `s` in UTF-8 bytes.
pub open spec fn byte_len(s: Seq<char>) -> int {
    encode_utf8(s).len() as int
}

/// The packed chunks closed so far and the chunk being filled (each word
/// followed by a space), after reading `words`.
pub open spec fn pack_state(words: Seq<Seq<char>>, size: int) -> (Seq<Seq<char>>, Seq<char>)
    decreases words.len(),
{
    if words.len() == 0 {
        (Seq::empty(), Seq::empty())
    } else {
        let prev = pack_state(words.drop_last(), size);
        let w = words.last();
        if prev.1.len() > 0 && byte_len(prev.1) + byte_len(w) + 1 > size {
            (prev.0.push(trim_spec(prev.1, false)), w + seq![' '])
        } else {
            (prev.0, prev.1 + w + seq![' '])
        }
    }
}

/// Words joined by spaces into chunks: a chunk is closed before a word that
/// would take it, with its space, over `size` bytes.
pub open spec fn pack_spec(words: Seq<Seq<char>>, size: int) -> Seq<Seq<char>> {
    let s = pack_state(words, size);
    if s.1.len() > 0 {
        s.0.push(trim_spec(s.1, false))
    } else {
        s.0
    }
}

/// Packs the words of a document into chunks of about `size` bytes.
pub fn pack_words(words: &Vec<String>, size: usize) -> (r: Vec<String>)
    ensures
        views(r@) == pack_spec(views(words@), size as int),
{
    let mut chunks: Vec<String> = Vec::new();
    let mut current = String::new();
    let mut i: usize = 0;
    while i < words.len()
        invariant
            i <= words@.len(),
            (views(chunks@), current@) == pack_state(views(words@.subrange(0, i as int)), size as int),
        decreases words@.len() - i,
    {
        let word = words[i].as_str();
        let ghost prefix = views(words@.subrange(0, i as int));
        let ghost next = views(words@.subrange(0, i + 1));
        assert(next.drop_last() =~= prefix);
        assert(next.last() == word@);
        let cs = current.as_str();
        let cur_len = cs.as_bytes().len();
        let word_len = word.as_bytes().len();
        assert(cur_len as int == byte_len(current@)) by {
            assert(cs@ == current@);
            assert(cs.spec_bytes() == encode_utf8(cs@));
        }
        assert(word_len as int == byte_len(word@)) by {
            assert(word.spec_bytes() == encode_utf8(word@));
        }
        let over = word_len >= size || cur_len >= size - word_len;
        assert(over == (byte_len(current@) + byte_len(word@) + 1 > size));
        if over && current.unicode_len() > 0 {
            let done = trim_text(current.as_str());
            let ghost before = views(chunks@);
            chunks.push(done);
            assert(views(chunks@) =~= before.push(done@));
            current = String::new();
        }
        current.append(word);
        current.append(" ");
        proof {
            reveal_strlit(" ");
        }
        assert(current@ =~= pack_state(next, size as int).1);
        i = i + 1;
    }
    assert(words@.subrange(0, words@.len() as int) =~= words@);
    if current.unicode_len() > 0 {
        let done = trim_text(current.as_str());
        let ghost before = views(chunks@);
        chunks.push(done);
        assert(views(chunks@) =~= before.push(done@));
    }
    chunks
}

} // verus!
