//! Breaking text into lines of a given width.
use crate::model::views_of;
use crate::text::{lines_of, split_lines, split_words, words};
use vstd::prelude::*;
use vstd::string::*;

verus! {

/// The least width that text can be broken to: a word that is too long
/// leaves two characters less than the width on a line, and a hyphen.
pub const MIN_CHUNK_SIZE: usize = 3;

/// The lines that the words from the `i`th on fill, the first `offset`
/// characters of that word being used up and `chunk` being the line in
/// hand: a word goes on the line if it fits, with a blank behind it unless
/// it fills the line; a word that is longer than a whole line is broken,
/// with a hyphen; a word that does not fit starts the next line.
pub open spec fn chunks_after(
    words: Seq<Seq<char>>,
    i: int,
    offset: int,
    chunk: Seq<char>,
    size: int,
) -> Seq<Seq<char>>
    decreases words.len() - i, (if 0 <= i < words.len() {
            words[i].len() - offset
        } else {
            0
        }), chunk.len(),
{
    if i < 0 || i >= words.len() || size < 3 || offset < 0 || offset > words[i].len() {
        seq![chunk]
    } else {
        let w = words[i].skip(offset);
        if chunk.len() == 0 && w.len() > size {
            chunks_after(words, i, offset + size - 2, w.take(size - 2).push('-'), size)
        } else if chunk.len() + w.len() < size {
            chunks_after(words, i + 1, 0, chunk + w + seq![' '], size)
        } else if chunk.len() + w.len() == size {
            chunks_after(words, i + 1, 0, chunk + w, size)
        } else {
            seq![chunk] + chunks_after(words, i, offset, Seq::<char>::empty(), size)
        }
    }
}

/// The lines that `words` fill at the width `size`.
pub open spec fn chunked(words: Seq<Seq<char>>, size: int) -> Seq<Seq<char>> {
    chunks_after(words, 0, 0, Seq::<char>::empty(), size)
}

/// True when no line of `lines` is longer than `size`.
pub open spec fn all_fit(lines: Seq<Seq<char>>, size: int) -> bool {
    forall|k: int| 0 <= k < lines.len() ==> (#[trigger] lines[k]).len() <= size
}

/// The words `words` on lines of at most `size` characters.
pub fn chunk_words(words: &Vec<String>, size: usize) -> (r: Vec<String>)
    requires
        size >= MIN_CHUNK_SIZE,
    ensures
        views_of(r@) == chunked(views_of(words@), size as int),
        r@.len() >= 1,
        all_fit(views_of(r@), size as int),
{
    let ghost all = views_of(words@);
    let mut chunks: Vec<String> = Vec::new();
    let mut chunk = String::new();
    let mut chunk_len: usize = 0;
    let mut i: usize = 0;
    let mut offset: usize = 0;
    proof {
        reveal_strlit("-");
        reveal_strlit(" ");
        assert(views_of(chunks@) + chunked(all, size as int) =~= chunked(all, size as int));
    }
    loop
        invariant
            size >= 3,
            all == views_of(words@),
            i <= words@.len(),
            i < words@.len() ==> offset <= all[i as int].len(),
            chunk_len == chunk@.len(),
            chunk_len <= size,
            all_fit(views_of(chunks@), size as int),
            "-"@ =~= seq!['-'],
            " "@ =~= seq![' '],
            views_of(chunks@) + chunks_after(all, i as int, offset as int, chunk@, size as int)
                == chunked(all, size as int),
        decreases words@.len() - i, (if i < words@.len() {
                all[i as int].len() - offset
            } else {
                0
            }), chunk_len,
    {
        if i >= words.len() {
            let ghost before = views_of(chunks@);
            chunks.push(chunk);
            proof {
                assert(views_of(chunks@) =~= before + seq![chunk@]);
            }
            return chunks;
        }
        let word = words[i].as_str();
        let total = word.unicode_len();
        let wlen = total - offset;
        let ghost w = all[i as int].skip(offset as int);
        if chunk_len == 0 && wlen > size {
            let piece = word.substring_char(offset, offset + (size - 2));
            assert(piece@ =~= w.take(size - 2));
            chunk = piece.to_owned();
            chunk.append("-");
            assert(chunk@ =~= w.take(size - 2).push('-'));
            chunk_len = size - 1;
            offset = offset + (size - 2);
        } else if wlen <= size - chunk_len {
            let piece = word.substring_char(offset, total);
            assert(piece@ =~= w);
            let ghost held = chunk@;
            chunk.append(piece);
            if wlen < size - chunk_len {
                chunk.append(" ");
                assert(chunk@ =~= held + w + seq![' ']);
                chunk_len = chunk_len + wlen + 1;
            } else {
                chunk_len = chunk_len + wlen;
            }
            i += 1;
            offset = 0;
        } else {
            let ghost before = views_of(chunks@);
            let ghost full = chunk@;
            chunks.push(chunk);
            chunk = String::new();
            chunk_len = 0;
            proof {
                assert(views_of(chunks@) =~= before + seq![full]);
                assert(before + (seq![full] + chunks_after(
                    all,
                    i as int,
                    offset as int,
                    Seq::<char>::empty(),
                    size as int,
                )) =~= (before + seq![full]) + chunks_after(
                    all,
                    i as int,
                    offset as int,
                    Seq::<char>::empty(),
                    size as int,
                ));
            }
        }
    }
}

/// The lines that one line of text is broken to at the width `size`: the
/// line itself if it is shorter, else its words on lines of that width.
pub open spec fn line_chunked(line: Seq<char>, size: int) -> Seq<Seq<char>> {
    if line.len() < size {
        seq![line]
    } else {
        chunked(words(line), size)
    }
}

/// One line of text on lines of at most `size` characters.
pub fn line_chunks(s: &str, size: usize) -> (r: Vec<String>)
    requires
        size >= MIN_CHUNK_SIZE,
    ensures
        views_of(r@) == line_chunked(s@, size as int),
        r@.len() >= 1,
        all_fit(views_of(r@), size as int),
{
    if s.unicode_len() < size {
        let mut out: Vec<String> = Vec::new();
        out.push(s.to_owned());
        assert(views_of(out@) =~= seq![s@]);
        return out;
    }
    let words = split_words(s);
    chunk_words(&words, size)
}

/// The lines that all of `lines` are broken to, one after the other.
pub open spec fn all_chunked(lines: Seq<Seq<char>>, size: int) -> Seq<Seq<char>>
    decreases lines.len(),
{
    if lines.len() == 0 {
        Seq::<Seq<char>>::empty()
    } else {
        all_chunked(lines.drop_last(), size) + line_chunked(lines.last(), size)
    }
}

/// The lines `lines`, each broken to lines of at most `size` characters.
pub fn chunk_lines(lines: &Vec<String>, size: usize) -> (r: Vec<String>)
    requires
        size >= MIN_CHUNK_SIZE,
    ensures
        views_of(r@) == all_chunked(views_of(lines@), size as int),
        all_fit(views_of(r@), size as int),
{
    let ghost all = views_of(lines@);
    let mut out: Vec<String> = Vec::new();
    let mut i: usize = 0;
    assert(views_of(out@) =~= all_chunked(all.take(0), size as int));
    while i < lines.len()
        invariant
            i <= lines@.len(),
            size >= 3,
            all == views_of(lines@),
            views_of(out@) == all_chunked(all.take(i as int), size as int),
            all_fit(views_of(out@), size as int),
        decreases lines@.len() - i,
    {
        let mut part = line_chunks(lines[i].as_str(), size);
        let ghost before = views_of(out@);
        let ghost added = views_of(part@);
        proof {
            assert(all.take(i as int + 1).drop_last() =~= all.take(i as int));
            assert(all.take(i as int + 1).last() == all[i as int]);
        }
        out.append(&mut part);
        assert(views_of(out@) =~= before + added);
        i += 1;
    }
    assert(all.take(i as int) =~= all);
    out
}

/// The text `s` on lines of at most `size` characters: each of its lines
/// is broken between words, and a word that is longer than a whole line is
/// broken with a hyphen.
pub fn word_chunks(s: &str, size: usize) -> (r: Vec<String>)
    requires
        size >= MIN_CHUNK_SIZE,
    ensures
        views_of(r@) == all_chunked(lines_of(s@), size as int),
        all_fit(views_of(r@), size as int),
{
    let lines = split_lines(s);
    chunk_lines(&lines, size)
}

} // verus!
