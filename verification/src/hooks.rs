//! The replacement functions' decision logic. Each hooked function follows
//! one pattern: extract the candidate text of the intercepted call, offer
//! it to the translation gateway or the transform engine, and either
//! forward the call unchanged or forward a rebuilt argument. The caller
//! that owns the actual interception performs the raw argument extraction
//! and the forwarding; every decision is made here on plain values.

use crate::foreign_string::ForeignString;
use crate::gateway::{offered, translate_bytes, PendingQueue};
use crate::tables::{capitalize, utf_entry, EncodingTables};
use vstd::prelude::*;

verus! {

/// Flag bit of the string-entry filter that requests capitalized input.
pub const CAPS: u8 = 8;

/// What a replacement function forwards for a raw byte argument.
pub enum ForwardAction {
    /// Forward the call with its argument unchanged.
    Original,
    /// Forward the call with this payload in place of the argument.
    Replaced(Vec<u8>),
}

/// What a text-render replacement forwards for a foreign string argument.
pub enum RenderAction {
    /// Forward the call with its argument unchanged.
    Original,
    /// Forward the call with a freshly built foreign string.
    Replaced(ForeignString),
}

/// Decision of the length-counted string-copy replacement: a source of
/// more than one byte is offered to the translator, whose result would be
/// forwarded without its trailing terminator; the translator currently
/// never produces one, so the call is always forwarded unchanged after
/// the text is recorded as pending.
pub fn string_copy_n(queue: &mut PendingQueue, src: &Vec<u8>) -> (r: ForwardAction)
    requires
        old(queue).wf(),
    ensures
        final(queue).wf(),
        r is Original,
        src@.len() > 1 ==> final(queue)@ == offered(old(queue)@, src@),
        src@.len() <= 1 ==> final(queue)@ == old(queue)@,
{
    if src.len() > 1 {
        match translate_bytes(queue, src) {
            Some(t) => {
                let mut payload = t;
                payload.pop();
                ForwardAction::Replaced(payload)
            },
            None => ForwardAction::Original,
        }
    } else {
        ForwardAction::Original
    }
}

/// Decision of the length-counted string-append replacement; same pattern
/// as the copy replacement.
pub fn string_append_n(queue: &mut PendingQueue, src: &Vec<u8>) -> (r: ForwardAction)
    requires
        old(queue).wf(),
    ensures
        final(queue).wf(),
        r is Original,
        src@.len() > 1 ==> final(queue)@ == offered(old(queue)@, src@),
        src@.len() <= 1 ==> final(queue)@ == old(queue)@,
{
    if src.len() > 1 {
        match translate_bytes(queue, src) {
            Some(t) => {
                let mut payload = t;
                payload.pop();
                ForwardAction::Replaced(payload)
            },
            None => ForwardAction::Original,
        }
    } else {
        ForwardAction::Original
    }
}

/// Decision of the string-constructor replacement; same pattern as the
/// copy replacement.
pub fn std_string_ctor(queue: &mut PendingQueue, src: &Vec<u8>) -> (r: ForwardAction)
    requires
        old(queue).wf(),
    ensures
        final(queue).wf(),
        r is Original,
        src@.len() > 1 ==> final(queue)@ == offered(old(queue)@, src@),
        src@.len() <= 1 ==> final(queue)@ == old(queue)@,
{
    if src.len() > 1 {
        match translate_bytes(queue, src) {
            Some(t) => {
                let mut payload = t;
                payload.pop();
                ForwardAction::Replaced(payload)
            },
            None => ForwardAction::Original,
        }
    } else {
        ForwardAction::Original
    }
}

/// Decision of the terminator-delimited string-append replacement: the
/// bytes read up to the terminator are offered to the translator, whose
/// result would be forwarded whole; the call is currently always
/// forwarded unchanged after the text is recorded as pending.
pub fn std_string_append(queue: &mut PendingQueue, src: &Vec<u8>) -> (r: ForwardAction)
    requires
        old(queue).wf(),
    ensures
        final(queue).wf(),
        r is Original,
        final(queue)@ == offered(old(queue)@, src@),
{
    match translate_bytes(queue, src) {
        Some(t) => ForwardAction::Replaced(t),
        None => ForwardAction::Original,
    }
}

/// Decision of the terminator-delimited string-assign replacement; same
/// pattern as the terminator-delimited append replacement.
pub fn std_string_assign(queue: &mut PendingQueue, src: &Vec<u8>) -> (r: ForwardAction)
    requires
        old(queue).wf(),
    ensures
        final(queue).wf(),
        r is Original,
        final(queue)@ == offered(old(queue)@, src@),
{
    match translate_bytes(queue, src) {
        Some(t) => ForwardAction::Replaced(t),
        None => ForwardAction::Original,
    }
}

/// Decision of the main text-render replacement: the content of the
/// foreign string argument is offered to the translator; a translation
/// would be rebuilt as a fresh foreign string, inline or heap as its
/// length demands, and forwarded. The call is currently always forwarded
/// unchanged after the text is recorded as pending.
pub fn addst(queue: &mut PendingQueue, src: &Vec<u8>) -> (r: RenderAction)
    requires
        old(queue).wf(),
    ensures
        final(queue).wf(),
        r is Original,
        final(queue)@ == offered(old(queue)@, src@),
{
    match translate_bytes(queue, src) {
        Some(t) => {
            let mut payload = t;
            payload.pop();
            RenderAction::Replaced(ForeignString::build_new(&payload))
        },
        None => RenderAction::Original,
    }
}

/// Decision of the top-bar text-render replacement; same pattern as the
/// main render replacement.
pub fn addst_top(queue: &mut PendingQueue, src: &Vec<u8>) -> (r: RenderAction)
    requires
        old(queue).wf(),
    ensures
        final(queue).wf(),
        r is Original,
        final(queue)@ == offered(old(queue)@, src@),
{
    match translate_bytes(queue, src) {
        Some(t) => {
            let mut payload = t;
            payload.pop();
            RenderAction::Replaced(ForeignString::build_new(&payload))
        },
        None => RenderAction::Original,
    }
}

/// Decision of the flagged text-render replacement; same pattern as the
/// main render replacement.
pub fn addst_flag(queue: &mut PendingQueue, src: &Vec<u8>) -> (r: RenderAction)
    requires
        old(queue).wf(),
    ensures
        final(queue).wf(),
        r is Original,
        final(queue)@ == offered(old(queue)@, src@),
{
    match translate_bytes(queue, src) {
        Some(t) => {
            let mut payload = t;
            payload.pop();
            RenderAction::Replaced(ForeignString::build_new(&payload))
        },
        None => RenderAction::Original,
    }
}

/// The outcome of the extended-input merge scan from slot `i` onward:
/// the resulting content, the rewritten pending code points, and whether
/// any substitution happened from this slot on. The scan stops at a zero
/// or newline sentinel or once the content reaches `maxlen`; a code point
/// above the plain ASCII range that the sparse table maps is replaced by
/// its substitute byte (capitalized when `caps` is set), which is also
/// appended to the content.
pub open spec fn merge_from(
    content: Seq<u8>,
    utf: Seq<u32>,
    i: int,
    maxlen: int,
    caps: bool,
    entries: Seq<(u32, u8)>,
    cap_table: Seq<u8>,
) -> (Seq<u8>, Seq<u32>, bool)
    recommends
        cap_table.len() == 256,
    decreases utf.len() - i,
{
    if i < 0 || i >= utf.len() {
        (content, utf, false)
    } else if utf[i] == 0 || utf[i] == 10 || content.len() >= maxlen {
        (content, utf, false)
    } else if utf[i] > 122 {
        match utf_entry(entries, utf[i]) {
            Some(entry) => {
                let mapped: u8 = if caps {
                    cap_table[entry as int]
                } else {
                    entry
                };
                let rest = merge_from(
                    content.push(mapped),
                    utf.update(i, mapped as u32),
                    i + 1,
                    maxlen,
                    caps,
                    entries,
                    cap_table,
                );
                (rest.0, rest.1, true)
            },
            None => merge_from(content, utf, i + 1, maxlen, caps, entries, cap_table),
        }
    } else {
        merge_from(content, utf, i + 1, maxlen, caps, entries, cap_table)
    }
}

/// Decision of the text-entry filter replacement: merges the up-to-eight
/// pending extended input code points into the entry buffer through the
/// sparse substitution table, capitalizing when the flag requests it.
/// Returns whether any substitution happened, in which case the call is
/// already handled and the original function is skipped.
pub fn standardstringentry(
    content: &mut ForeignString,
    maxlen: usize,
    flag: u8,
    utf: &mut Vec<u32>,
    tables: &EncodingTables,
) -> (any_valid: bool)
    requires
        old(content).wf(),
        old(utf)@.len() == 8,
        tables.wf(),
    ensures
        final(content).wf(),
        ({
            let outcome = merge_from(
                old(content)@,
                old(utf)@,
                0,
                maxlen as int,
                (flag & CAPS) > 0,
                tables.utf@,
                tables.capitalize@,
            );
            &&& final(content)@ == outcome.0
            &&& final(utf)@ == outcome.1
            &&& any_valid == outcome.2
        }),
{
    let caps_on: bool = (flag & CAPS) > 0;
    let ghost goal = merge_from(
        old(content)@,
        old(utf)@,
        0,
        maxlen as int,
        caps_on,
        tables.utf@,
        tables.capitalize@,
    );
    let mut any_valid = false;
    let mut i: usize = 0;
    while i < 8 && utf[i] != 0 && utf[i] != 10 && content.size() < maxlen
        invariant
            content.wf(),
            tables.wf(),
            utf@.len() == 8,
            i <= 8,
            ({
                let step = merge_from(
                    content@,
                    utf@,
                    i as int,
                    maxlen as int,
                    caps_on,
                    tables.utf@,
                    tables.capitalize@,
                );
                goal == (step.0, step.1, any_valid || step.2)
            }),
        decreases 8 - i,
    {
        let cp = utf[i];
        if cp > 122 {
            match tables.utf_lookup(cp) {
                Some(entry) => {
                    let mapped = if caps_on {
                        capitalize(tables, entry)
                    } else {
                        entry
                    };
                    utf.set(i, mapped as u32);
                    content.push_back(mapped);
                    any_valid = true;
                },
                None => {},
            }
        }
        i = i + 1;
    }
    any_valid
}

} // verus!
