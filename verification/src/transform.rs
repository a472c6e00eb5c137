//! The text transform engine: per-byte table substitution (simplify,
//! uppercase, lowercase) and bracket-aware word capitalization, operating in
//! place on a foreign string's content.

use crate::foreign_string::ForeignString;
use crate::tables::EncodingTables;
use vstd::prelude::*;

verus! {

/// Per-byte table substitution over a byte sequence.
pub open spec fn map_table(s: Seq<u8>, t: Seq<u8>) -> Seq<u8>
    recommends
        t.len() == 256,
{
    Seq::new(s.len(), |i: int| t[s[i] as int])
}

/// True for the ASCII letter bytes.
pub open spec fn is_ascii_letter(b: u8) -> bool {
    (65 <= b && b <= 90) || (97 <= b && b <= 122)
}

/// Whether position `i` of `s` is a capitalization candidate: the first
/// byte, a byte right after a space or double quote, or a byte after an
/// apostrophe that itself follows a space or a comma.
pub open spec fn word_start(s: Seq<u8>, i: int) -> bool
    recommends
        0 <= i < s.len(),
{
    ||| i == 0
    ||| (i >= 1 && (s[i - 1] == 32 || s[i - 1] == 34))
    ||| (i >= 2 && s[i - 1] == 39 && (s[i - 2] == 32 || s[i - 2] == 44))
}

/// The content produced by the word-capitalization scan of `s` from
/// position `i` onward, with `depth` open brackets so far: brackets adjust
/// the depth and pass through, bracketed bytes pass through, and candidate
/// bytes outside brackets are replaced by their uppercase mapping.
pub open spec fn cap_words_from(s: Seq<u8>, upper: Seq<u8>, i: int, depth: int) -> Seq<u8>
    recommends
        upper.len() == 256,
    decreases s.len() - i,
{
    if i < 0 || i >= s.len() {
        s
    } else if s[i] == 91 {
        cap_words_from(s, upper, i + 1, depth + 1)
    } else if s[i] == 93 {
        cap_words_from(s, upper, i + 1, depth - 1)
    } else if depth > 0 {
        cap_words_from(s, upper, i + 1, depth)
    } else if word_start(s, i) {
        cap_words_from(s.update(i, upper[s[i] as int]), upper, i + 1, depth)
    } else {
        cap_words_from(s, upper, i + 1, depth)
    }
}

/// Like `cap_words_from`, but the scan stops as soon as a candidate byte
/// maps to something other than a space or a double quote, that is, once
/// the first real word has been capitalized.
pub open spec fn cap_first_from(s: Seq<u8>, upper: Seq<u8>, i: int, depth: int) -> Seq<u8>
    recommends
        upper.len() == 256,
    decreases s.len() - i,
{
    if i < 0 || i >= s.len() {
        s
    } else if s[i] == 91 {
        cap_first_from(s, upper, i + 1, depth + 1)
    } else if s[i] == 93 {
        cap_first_from(s, upper, i + 1, depth - 1)
    } else if depth > 0 {
        cap_first_from(s, upper, i + 1, depth)
    } else if word_start(s, i) {
        let s2 = s.update(i, upper[s[i] as int]);
        if s2[i] != 32 && s2[i] != 34 {
            s2
        } else {
            cap_first_from(s2, upper, i + 1, depth)
        }
    } else {
        cap_first_from(s, upper, i + 1, depth)
    }
}

/// Rewrites every content byte through `table`.
fn apply_table(content: &mut ForeignString, table: &Vec<u8>)
    requires
        old(content).wf(),
        table@.len() == 256,
    ensures
        final(content).wf(),
        final(content)@ == map_table(old(content)@, table@),
        final(content).representation() == old(content).representation(),
{
    let len = content.size();
    let mut i: usize = 0;
    while i < len
        invariant
            content.wf(),
            table@.len() == 256,
            i <= len,
            len == content@.len(),
            content@.len() == old(content)@.len(),
            content.representation() == old(content).representation(),
            forall|j: int| 0 <= j < i ==> content@[j] == table@[old(content)@[j] as int],
            forall|j: int| i <= j < len ==> content@[j] == old(content)@[j],
        decreases len - i,
    {
        let b = content.byte_at(i);
        content.mutate_in_place(i, table[b as usize]);
        i = i + 1;
    }
    proof {
        assert(content@ =~= map_table(old(content)@, table@));
    }
}

/// In-place diacritic folding: every byte is rewritten through the
/// simplify table.
pub fn simplify_string(content: &mut ForeignString, tables: &EncodingTables)
    requires
        old(content).wf(),
        tables.wf(),
    ensures
        final(content).wf(),
        final(content)@ == map_table(old(content)@, tables.simplify@),
        final(content).representation() == old(content).representation(),
{
    apply_table(content, &tables.simplify);
}

/// In-place uppercasing: every byte is rewritten through the uppercase
/// table.
pub fn upper_case_string(content: &mut ForeignString, tables: &EncodingTables)
    requires
        old(content).wf(),
        tables.wf(),
    ensures
        final(content).wf(),
        final(content)@ == map_table(old(content)@, tables.uppercase@),
        final(content).representation() == old(content).representation(),
{
    apply_table(content, &tables.uppercase);
}

/// In-place lowercasing: every byte is rewritten through the lowercase
/// table.
pub fn lower_case_string(content: &mut ForeignString, tables: &EncodingTables)
    requires
        old(content).wf(),
        tables.wf(),
    ensures
        final(content).wf(),
        final(content)@ == map_table(old(content)@, tables.lowercase@),
        final(content).representation() == old(content).representation(),
{
    apply_table(content, &tables.lowercase);
}

/// Capitalizes every word of the content in place: a bracket-depth counter
/// tracks `[` and `]`, bracketed bytes pass through unchanged, and each
/// capitalization candidate outside brackets is replaced by its uppercase
/// mapping.
pub fn capitalize_string_words(content: &mut ForeignString, tables: &EncodingTables)
    requires
        old(content).wf(),
        tables.wf(),
    ensures
        final(content).wf(),
        final(content)@ == cap_words_from(old(content)@, tables.uppercase@, 0, 0),
        final(content).representation() == old(content).representation(),
{
    let len = content.size();
    let mut opens: usize = 0;
    let mut closes: usize = 0;
    let mut i: usize = 0;
    while i < len
        invariant
            content.wf(),
            tables.wf(),
            i <= len,
            opens <= i,
            closes <= i,
            len == content@.len(),
            content@.len() == old(content)@.len(),
            content.representation() == old(content).representation(),
            cap_words_from(old(content)@, tables.uppercase@, 0, 0) == cap_words_from(
                content@,
                tables.uppercase@,
                i as int,
                opens as int - closes as int,
            ),
        decreases len - i,
    {
        let b = content.byte_at(i);
        if b == 91 {
            opens = opens + 1;
        } else if b == 93 {
            closes = closes + 1;
        } else if opens > closes {
            // bracketed text is never capitalized
        } else {
            let mut conf = false;
            if i > 0 {
                let p = content.byte_at(i - 1);
                if p == 32 || p == 34 {
                    conf = true;
                } else if i >= 2 && p == 39 {
                    let pp = content.byte_at(i - 2);
                    if pp == 32 || pp == 44 {
                        conf = true;
                    }
                }
            }
            if i == 0 || conf {
                content.mutate_in_place(i, tables.uppercase[b as usize]);
            }
        }
        i = i + 1;
    }
}

/// Capitalizes the first word of the content in place, with the same
/// bracket and candidate rules as `capitalize_string_words`, stopping once
/// a candidate byte maps to something other than a space or double quote.
pub fn capitalize_string_first_word(content: &mut ForeignString, tables: &EncodingTables)
    requires
        old(content).wf(),
        tables.wf(),
    ensures
        final(content).wf(),
        final(content)@ == cap_first_from(old(content)@, tables.uppercase@, 0, 0),
        final(content).representation() == old(content).representation(),
{
    let len = content.size();
    let mut opens: usize = 0;
    let mut closes: usize = 0;
    let mut i: usize = 0;
    while i < len
        invariant
            content.wf(),
            tables.wf(),
            i <= len,
            opens <= i,
            closes <= i,
            len == content@.len(),
            content@.len() == old(content)@.len(),
            content.representation() == old(content).representation(),
            cap_first_from(old(content)@, tables.uppercase@, 0, 0) == cap_first_from(
                content@,
                tables.uppercase@,
                i as int,
                opens as int - closes as int,
            ),
        decreases len - i,
    {
        let b = content.byte_at(i);
        if b == 91 {
            opens = opens + 1;
        } else if b == 93 {
            closes = closes + 1;
        } else if opens > closes {
            // bracketed text is never capitalized
        } else {
            let mut conf = false;
            if i > 0 {
                let p = content.byte_at(i - 1);
                if p == 32 || p == 34 {
                    conf = true;
                } else if i >= 2 && p == 39 {
                    let pp = content.byte_at(i - 2);
                    if pp == 32 || pp == 44 {
                        conf = true;
                    }
                }
            }
            if i == 0 || conf {
                let nb = tables.uppercase[b as usize];
                content.mutate_in_place(i, nb);
                if nb != 32 && nb != 34 {
                    return;
                }
            }
        }
        i = i + 1;
    }
}

/// The simplify, uppercase and lowercase transforms are all per-byte table
/// maps; applying such a map twice equals applying it once whenever the
/// table is idempotent on the bytes of the content, as it is for the ASCII
/// letters under the intended case tables.
pub proof fn lemma_map_table_idempotent(s: Seq<u8>, t: Seq<u8>)
    requires
        t.len() == 256,
        forall|j: int| 0 <= j < s.len() ==> is_ascii_letter(#[trigger] s[j]),
        forall|b: u8| #[trigger] is_ascii_letter(b) ==> t[t[b as int] as int] == t[b as int],
    ensures
        map_table(map_table(s, t), t) == map_table(s, t),
{
    assert forall|j: int| 0 <= j < s.len() implies map_table(map_table(s, t), t)[j] == map_table(
        s,
        t,
    )[j] by {
        assert(is_ascii_letter(s[j]));
        assert(t[t[s[j] as int] as int] == t[s[j] as int]);
    }
    assert(map_table(map_table(s, t), t) =~= map_table(s, t));
}

} // verus!
