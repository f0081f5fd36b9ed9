//! The fields of a DJ Link / Carabiner sidecar output line. The accepted
//! shapes are `LINK 120`, `LINK 120 0.25`, `BPM: 120` and
//! `tempo=120 phase=0.25` (also `bpm=120`); the numbers themselves are
//! fractions, read beside this from the texts found here.
use vstd::prelude::*;

use crate::scan::{matches_at, occurs_at, slice_chars, trim_chars, trimmed};
use crate::text::{chars_of, string_from_chars};

verus! {

/// ASCII white space, as `u8::is_ascii_whitespace` defines it.
pub open spec fn is_ascii_ws(c: char) -> bool {
    c == ' ' || c == '\t' || c == '\n' || c == '\u{c}' || c == '\r'
}

/// The word being read, once it ends: nothing if it is empty.
pub open spec fn flushed(cur: Seq<char>) -> Seq<Seq<char>> {
    if cur.len() > 0 {
        seq![cur]
    } else {
        seq![]
    }
}

/// The words of `s[i..]`, with `cur` the word read so far, split on ASCII
/// white space and without empty words.
pub open spec fn words_from(s: Seq<char>, i: int, cur: Seq<char>) -> Seq<Seq<char>>
    decreases s.len() - i,
{
    if i < 0 || i >= s.len() {
        flushed(cur)
    } else if is_ascii_ws(s[i]) {
        flushed(cur) + words_from(s, i + 1, seq![])
    } else {
        words_from(s, i + 1, cur.push(s[i]))
    }
}

/// The words of `s`, as `str::split_ascii_whitespace` yields them.
pub open spec fn words(s: Seq<char>) -> Seq<Seq<char>> {
    words_from(s, 0, seq![])
}

/// The words of `s`.
pub fn ascii_words(s: &[char]) -> (r: Vec<Vec<char>>)
    ensures
        r@.map_values(|w: Vec<char>| w@) == words(s@),
{
    let mut out: Vec<Vec<char>> = Vec::new();
    let mut cur: Vec<char> = Vec::new();
    let mut i: usize = 0;
    while i < s.len()
        invariant
            i <= s@.len(),
            words(s@) == out@.map_values(|w: Vec<char>| w@) + words_from(s@, i as int, cur@),
        decreases s@.len() - i,
    {
        let c = s[i];
        let ghost before = out@.map_values(|w: Vec<char>| w@);
        if c == ' ' || c == '\t' || c == '\n' || c == '\u{c}' || c == '\r' {
            if cur.len() > 0 {
                let word = cur;
                cur = Vec::new();
                out.push(word);
                assert(out@.map_values(|w: Vec<char>| w@) == before.push(word@));
                assert(before + (flushed(word@) + words_from(s@, i + 1, seq![])) == before.push(
                    word@,
                ) + words_from(s@, i + 1, seq![]));
            } else {
                assert(flushed(cur@) + words_from(s@, i + 1, seq![]) == words_from(
                    s@,
                    i + 1,
                    seq![],
                ));
                cur = Vec::new();
            }
            assert(cur@ == Seq::<char>::empty());
        } else {
            cur.push(c);
        }
        i = i + 1;
    }
    let ghost before = out@.map_values(|w: Vec<char>| w@);
    if cur.len() > 0 {
        out.push(cur);
        assert(out@.map_values(|w: Vec<char>| w@) == before.push(cur@));
    } else {
        assert(before + flushed(cur@) == before);
    }
    out
}

/// The text after `key` when `w` starts with it.
pub open spec fn key_value(w: Seq<char>, key: Seq<char>) -> Option<Seq<char>> {
    if occurs_at(w, key, 0) {
        Some(w.subrange(key.len() as int, w.len() as int))
    } else {
        None
    }
}

/// The tempo a word gives: after `tempo=`, else after `bpm=`.
pub open spec fn tempo_word(w: Seq<char>) -> Option<Seq<char>> {
    match key_value(w, "tempo="@) {
        Some(v) => Some(v),
        None => key_value(w, "bpm="@),
    }
}

/// The phase a word gives, when it gives no tempo: after `phase=`.
pub open spec fn phase_word(w: Seq<char>) -> Option<Seq<char>> {
    if tempo_word(w) is Some {
        None
    } else {
        key_value(w, "phase="@)
    }
}

/// The tempo the last word that gives one gives.
pub open spec fn last_tempo(ws: Seq<Seq<char>>) -> Option<Seq<char>>
    decreases ws.len(),
{
    if ws.len() == 0 {
        None
    } else {
        match tempo_word(ws.last()) {
            Some(v) => Some(v),
            None => last_tempo(ws.drop_last()),
        }
    }
}

/// The phase the last word that gives one gives.
pub open spec fn last_phase(ws: Seq<Seq<char>>) -> Option<Seq<char>>
    decreases ws.len(),
{
    if ws.len() == 0 {
        None
    } else {
        match phase_word(ws.last()) {
            Some(v) => Some(v),
            None => last_phase(ws.drop_last()),
        }
    }
}

/// The tempo and phase texts of a sidecar line (after trimming it):
/// `LINK ` then the first word and the second, if any; `BPM:` then the
/// trimmed rest and no phase; otherwise the last `tempo=`/`bpm=` word and
/// the last `phase=` word. `None` for an empty line, a `LINK ` line
/// without words, or a keyed line without a tempo.
pub open spec fn link_fields_spec(line: Seq<char>) -> Option<(Seq<char>, Option<Seq<char>>)> {
    let t = trimmed(line);
    if t.len() == 0 {
        None
    } else if occurs_at(t, "LINK "@, 0) {
        let ws = words(t.subrange(5, t.len() as int));
        if ws.len() == 0 {
            None
        } else {
            Some(
                (
                    ws[0],
                    if ws.len() > 1 {
                        Some(ws[1])
                    } else {
                        None
                    },
                ),
            )
        }
    } else if occurs_at(t, "BPM:"@, 0) {
        Some((trimmed(t.subrange(4, t.len() as int)), None))
    } else {
        let ws = words(t);
        match last_tempo(ws) {
            Some(b) => Some((b, last_phase(ws))),
            None => None,
        }
    }
}

/// The tempo and phase texts of a sidecar line.
#[derive(Clone, Debug, PartialEq, Eq)]
pub struct LinkLineFields {
    /// The tempo, in beats per minute.
    pub bpm: String,
    /// The beat phase, if given.
    pub phase: Option<String>,
}

/// The view of the fields: the two texts.
pub open spec fn fields_view(f: LinkLineFields) -> (Seq<char>, Option<Seq<char>>) {
    (
        f.bpm@,
        match f.phase {
            Some(p) => Some(p@),
            None => None,
        },
    )
}

/// The value after `key` when `w` starts with it.
fn key_value_chars(w: &[char], key: &[char]) -> (r: Option<Vec<char>>)
    ensures
        r matches Some(v) ==> key_value(w@, key@) == Some(v@),
        r is None ==> key_value(w@, key@) is None,
{
    if matches_at(w, key, 0) {
        Some(slice_chars(w, key.len(), w.len()))
    } else {
        None
    }
}

fn tempo_word_chars(w: &[char], tempo_key: &[char], bpm_key: &[char]) -> (r: Option<Vec<char>>)
    requires
        tempo_key@ == "tempo="@,
        bpm_key@ == "bpm="@,
    ensures
        r matches Some(v) ==> tempo_word(w@) == Some(v@),
        r is None ==> tempo_word(w@) is None,
{
    match key_value_chars(w, tempo_key) {
        Some(v) => Some(v),
        None => key_value_chars(w, bpm_key),
    }
}

/// Read the tempo and phase texts of a sidecar line.
pub fn link_line_fields(line: &str) -> (r: Option<LinkLineFields>)
    ensures
        r matches Some(f) ==> link_fields_spec(line@) == Some(fields_view(f)),
        r is None ==> link_fields_spec(line@) is None,
{
    let chars = chars_of(line);
    let t = trim_chars(chars.as_slice());
    if t.len() == 0 {
        return None;
    }
    let link_prefix = chars_of("LINK ");
    let bpm_prefix = chars_of("BPM:");
    proof {
        reveal_strlit("LINK ");
        reveal_strlit("BPM:");
    }
    if matches_at(t.as_slice(), link_prefix.as_slice(), 0) {
        let rest = slice_chars(t.as_slice(), 5, t.len());
        let ws = ascii_words(rest.as_slice());
        let ghost wv = ws@.map_values(|w: Vec<char>| w@);
        if ws.len() == 0 {
            return None;
        }
        assert(wv[0] == ws@[0]@);
        let bpm = string_from_chars(ws[0].as_slice());
        let phase = if ws.len() > 1 {
            assert(wv[1] == ws@[1]@);
            Some(string_from_chars(ws[1].as_slice()))
        } else {
            None
        };
        return Some(LinkLineFields { bpm, phase });
    }
    if matches_at(t.as_slice(), bpm_prefix.as_slice(), 0) {
        let rest = slice_chars(t.as_slice(), 4, t.len());
        let value = trim_chars(rest.as_slice());
        return Some(LinkLineFields { bpm: string_from_chars(value.as_slice()), phase: None });
    }
    let ws = ascii_words(t.as_slice());
    let ghost wv = ws@.map_values(|w: Vec<char>| w@);
    let tempo_key = chars_of("tempo=");
    let bpm_key = chars_of("bpm=");
    let phase_key = chars_of("phase=");
    let mut bpm: Option<Vec<char>> = None;
    let mut phase: Option<Vec<char>> = None;
    let mut i: usize = 0;
    while i < ws.len()
        invariant
            i <= ws@.len(),
            wv == ws@.map_values(|w: Vec<char>| w@),
            tempo_key@ == "tempo="@,
            bpm_key@ == "bpm="@,
            phase_key@ == "phase="@,
            match bpm {
                Some(v) => last_tempo(wv.subrange(0, i as int)) == Some(v@),
                None => last_tempo(wv.subrange(0, i as int)) is None,
            },
            match phase {
                Some(v) => last_phase(wv.subrange(0, i as int)) == Some(v@),
                None => last_phase(wv.subrange(0, i as int)) is None,
            },
        decreases ws@.len() - i,
    {
        assert(wv.subrange(0, i + 1).drop_last() == wv.subrange(0, i as int));
        assert(wv.subrange(0, i + 1).last() == ws@[i as int]@);
        match tempo_word_chars(ws[i].as_slice(), tempo_key.as_slice(), bpm_key.as_slice()) {
            Some(v) => {
                bpm = Some(v);
            },
            None => {
                match key_value_chars(ws[i].as_slice(), phase_key.as_slice()) {
                    Some(v) => {
                        phase = Some(v);
                    },
                    None => {},
                }
            },
        }
        i = i + 1;
    }
    assert(wv.subrange(0, wv.len() as int) == wv);
    match bpm {
        Some(b) => {
            let phase_text = match phase {
                Some(p) => Some(string_from_chars(p.as_slice())),
                None => None,
            };
            Some(LinkLineFields { bpm: string_from_chars(b.as_slice()), phase: phase_text })
        },
        None => None,
    }
}

} // verus!
