//! Message framing on the control pipe: UTF-8 JSON bodies, each terminated
//! by a single EOT byte (0x04). Partial messages stay in the buffer until
//! their terminator arrives; a leading UTF-8 byte-order mark is stripped
//! before parsing.

use crate::json::{spec_print, SpecJson};
use vstd::prelude::*;

verus! {

/// The message terminator.
pub const EOT: u8 = 4;

/// The first position at or after `i` holding the terminator, or the length
/// when there is none.
pub open spec fn first_eot(buf: Seq<u8>, i: int) -> int
    decreases buf.len() - i,
{
    if 0 <= i < buf.len() {
        if buf[i] == 4 {
            i
        } else {
            first_eot(buf, i + 1)
        }
    } else {
        buf.len() as int
    }
}

/// The complete frames of a buffer, in order: the byte runs between
/// terminators, each without its terminator.
pub open spec fn spec_frames(buf: Seq<u8>) -> Seq<Seq<u8>>
    decreases buf.len(),
{
    let e = first_eot(buf, 0);
    if e < 0 || e >= buf.len() {
        Seq::empty()
    } else {
        seq![buf.subrange(0, e)] + spec_frames(buf.subrange(e + 1, buf.len() as int))
    }
}

/// What stays in the buffer after the last terminator: the bytes of a
/// message still incomplete.
pub open spec fn spec_remainder(buf: Seq<u8>) -> Seq<u8>
    decreases buf.len(),
{
    let e = first_eot(buf, 0);
    if e < 0 || e >= buf.len() {
        buf
    } else {
        spec_remainder(buf.subrange(e + 1, buf.len() as int))
    }
}

proof fn lemma_first_eot_bounds(buf: Seq<u8>, i: int)
    requires
        0 <= i <= buf.len(),
    ensures
        i <= first_eot(buf, i) <= buf.len(),
        first_eot(buf, i) < buf.len() ==> buf[first_eot(buf, i)] == 4,
        forall|k: int| i <= k < first_eot(buf, i) ==> buf[k] != 4,
    decreases buf.len() - i,
{
    if i < buf.len() && buf[i] != 4 {
        lemma_first_eot_bounds(buf, i + 1);
    }
}

fn find_eot(buf: &Vec<u8>, i: usize) -> (e: usize)
    requires
        i <= buf@.len(),
    ensures
        e == first_eot(buf@, i as int),
        i <= e <= buf@.len(),
    decreases buf@.len() - i,
{
    if i < buf.len() {
        if buf[i] == 4 {
            i
        } else {
            find_eot(buf, i + 1)
        }
    } else {
        buf.len()
    }
}

fn copy_range(buf: &Vec<u8>, from: usize, to: usize) -> (out: Vec<u8>)
    requires
        from <= to <= buf@.len(),
    ensures
        out@ == buf@.subrange(from as int, to as int),
{
    let mut out: Vec<u8> = Vec::new();
    let mut i: usize = from;
    while i < to
        invariant
            from <= i <= to <= buf@.len(),
            out@.len() == i - from,
            forall|k: int| 0 <= k < out@.len() ==> out@[k] == buf@[from + k],
        decreases to - i,
    {
        out.push(buf[i]);
        i = i + 1;
    }
    proof {
        assert(out@ =~= buf@.subrange(from as int, to as int));
    }
    out
}

/// Splits a read buffer into its complete frames and the trailing partial
/// message. The frames come back in arrival order, without terminators; the
/// remainder holds no terminator and stays for the next read.
pub fn take_frames(buf: Vec<u8>) -> (r: (Vec<Vec<u8>>, Vec<u8>))
    ensures
        Seq::new(r.0@.len(), |i: int| r.0@[i]@) == spec_frames(buf@),
        r.1@ == spec_remainder(buf@),
    decreases buf@.len(),
{
    let e = find_eot(&buf, 0);
    if e >= buf.len() {
        proof {
            assert(Seq::new(0, |i: int| Seq::<u8>::empty()) =~= Seq::<Seq<u8>>::empty());
            assert(Seq::new(Seq::<Vec<u8>>::empty().len(), |i: int| Seq::<Vec<u8>>::empty()[i]@)
                =~= Seq::<Seq<u8>>::empty());
        }
        (Vec::new(), buf)
    } else {
        let frame = copy_range(&buf, 0, e);
        let rest = copy_range(&buf, e + 1, buf.len());
        let (tail_frames, remainder) = take_frames(rest);
        let ghost frame0 = frame@;
        let ghost tail0 = tail_frames@;
        let mut frames: Vec<Vec<u8>> = Vec::new();
        frames.push(frame);
        let mut tail_frames = tail_frames;
        frames.append(&mut tail_frames);
        proof {
            assert(Seq::new(frames@.len(), |i: int| frames@[i]@) =~= seq![frame0] + Seq::new(
                tail0.len(),
                |i: int| tail0[i]@,
            ));
        }
        (frames, remainder)
    }
}

/// The UTF-8 byte-order mark some writers put in front of a message.
pub open spec fn spec_strip_bom(msg: Seq<u8>) -> Seq<u8> {
    if msg.len() >= 3 && msg[0] == 0xEF && msg[1] == 0xBB && msg[2] == 0xBF {
        msg.subrange(3, msg.len() as int)
    } else {
        msg
    }
}

/// Strips a leading UTF-8 byte-order mark, if present.
pub fn strip_bom(msg: Vec<u8>) -> (out: Vec<u8>)
    ensures
        out@ == spec_strip_bom(msg@),
{
    if msg.len() >= 3 && msg[0] == 0xEF && msg[1] == 0xBB && msg[2] == 0xBF {
        copy_range(&msg, 3, msg.len())
    } else {
        msg
    }
}

/// Appends one framed message: the canonical printing of the JSON value,
/// then the terminator.
pub fn push_frame(out: &mut Vec<u8>, v: &crate::json::JsonValue)
    ensures
        final(out)@ == old(out)@ + spec_print(v@) + seq![EOT],
{
    crate::json::print_json_into(v, out);
    out.push(EOT);
    proof {
        assert(out@ =~= old(out)@ + spec_print(v@) + seq![EOT]);
    }
}

/// No byte of a printed JSON document is the terminator, so a framed reply
/// holds exactly one terminator: its last byte. One frame therefore carries
/// exactly one reply.
pub proof fn lemma_print_has_no_eot(v: SpecJson)
    ensures
        forall|i: int| 0 <= i < spec_print(v).len() ==> spec_print(v)[i] != 4,
    decreases v,
{
    match v {
        SpecJson::Null => {
            assert forall|i: int| 0 <= i < spec_print(v).len() implies spec_print(v)[i] != 4 by {
                assert(spec_print(v) == seq![110u8, 117u8, 108u8, 108u8]);
            }
        },
        SpecJson::Bool(b) => {
            assert forall|i: int| 0 <= i < spec_print(v).len() implies spec_print(v)[i] != 4 by {
                if b {
                    assert(spec_print(v) == seq![116u8, 114u8, 117u8, 101u8]);
                } else {
                    assert(spec_print(v) == seq![102u8, 97u8, 108u8, 115u8, 101u8]);
                }
            }
        },
        SpecJson::UInt(n) => {
            lemma_decimal_bytes_no_eot(n as u64 as int);
            assert forall|i: int| 0 <= i < spec_print(v).len() implies spec_print(v)[i] != 4 by {
                assert(spec_print(v)[i] == crate::text::spec_decimal_bytes(n as int)[i]);
            }
        },
        SpecJson::Str(s) => {
            lemma_escape_no_eot(s, 0);
            assert forall|i: int| 0 <= i < spec_print(v).len() implies spec_print(v)[i] != 4 by {
                let esc = crate::json::spec_escape(s, 0);
                if 1 <= i < 1 + esc.len() {
                    assert(spec_print(v)[i] == esc[i - 1]);
                }
            }
        },
        SpecJson::Arr(items) => {
            lemma_print_items_no_eot(items, 0);
            assert forall|i: int| 0 <= i < spec_print(v).len() implies spec_print(v)[i] != 4 by {
                let body = crate::json::spec_print_items(items, 0);
                if 1 <= i < 1 + body.len() {
                    assert(spec_print(v)[i] == body[i - 1]);
                }
            }
        },
        SpecJson::Obj(fields) => {
            lemma_print_fields_no_eot(fields, 0);
            assert forall|i: int| 0 <= i < spec_print(v).len() implies spec_print(v)[i] != 4 by {
                let body = crate::json::spec_print_fields(fields, 0);
                if 1 <= i < 1 + body.len() {
                    assert(spec_print(v)[i] == body[i - 1]);
                }
            }
        },
    }
}

proof fn lemma_decimal_bytes_no_eot(n: int)
    ensures
        forall|i: int|
            0 <= i < crate::text::spec_decimal_bytes(n).len()
                ==> crate::text::spec_decimal_bytes(n)[i] != 4,
    decreases (if n < 0 {
        0int
    } else {
        n
    }),
{
    if n >= 10 {
        lemma_decimal_bytes_no_eot(n / 10);
        assert forall|i: int|
            0 <= i < crate::text::spec_decimal_bytes(n).len() implies crate::text::spec_decimal_bytes(
            n,
        )[i] != 4 by {
            if i < crate::text::spec_decimal_bytes(n / 10).len() {
                assert(crate::text::spec_decimal_bytes(n)[i] == crate::text::spec_decimal_bytes(
                    n / 10,
                )[i]);
            }
        }
    }
}

proof fn lemma_escape_no_eot(s: Seq<u8>, from: int)
    ensures
        forall|i: int|
            0 <= i < crate::json::spec_escape(s, from).len() ==> crate::json::spec_escape(
                s,
                from,
            )[i] != 4,
    decreases s.len() - from,
{
    if 0 <= from < s.len() {
        lemma_escape_no_eot(s, from + 1);
        assert forall|i: int|
            0 <= i < crate::json::spec_escape(s, from).len() implies crate::json::spec_escape(
            s,
            from,
        )[i] != 4 by {
            let head = crate::json::spec_escape_byte(s[from]);
            if i >= head.len() {
                assert(crate::json::spec_escape(s, from)[i] == crate::json::spec_escape(
                    s,
                    from + 1,
                )[i - head.len()]);
            }
        }
    }
}

proof fn lemma_print_items_no_eot(items: Seq<SpecJson>, from: int)
    ensures
        forall|i: int|
            0 <= i < crate::json::spec_print_items(items, from).len()
                ==> crate::json::spec_print_items(items, from)[i] != 4,
    decreases items, items.len() - from, 1int,
{
    if 0 <= from < items.len() {
        lemma_print_has_no_eot(items[from]);
        if from == items.len() - 1 {
            assert forall|i: int|
                0 <= i < crate::json::spec_print_items(items, from).len() implies crate::json::spec_print_items(
                items,
                from,
            )[i] != 4 by {
                assert(crate::json::spec_print_items(items, from)[i] == crate::json::spec_print(
                    items[from],
                )[i]);
            }
        }
        if from < items.len() - 1 {
            lemma_print_items_no_eot(items, from + 1);
            assert forall|i: int|
                0 <= i < crate::json::spec_print_items(items, from).len() implies crate::json::spec_print_items(
                items,
                from,
            )[i] != 4 by {
                let head = crate::json::spec_print(items[from]);
                if i >= head.len() + 1 {
                    assert(crate::json::spec_print_items(items, from)[i]
                        == crate::json::spec_print_items(items, from + 1)[i - head.len() - 1]);
                } else if i == head.len() {
                    assert(crate::json::spec_print_items(items, from)[i] == 44u8);
                }
            }
        }
    }
}

proof fn lemma_print_fields_no_eot(fields: Seq<(Seq<u8>, SpecJson)>, from: int)
    ensures
        forall|i: int|
            0 <= i < crate::json::spec_print_fields(fields, from).len()
                ==> crate::json::spec_print_fields(fields, from)[i] != 4,
    decreases fields, fields.len() - from, 1int,
{
    if 0 <= from < fields.len() {
        lemma_print_has_no_eot(fields[from].1);
        lemma_escape_no_eot(fields[from].0, 0);
        let entry = seq![34u8] + crate::json::spec_escape(fields[from].0, 0) + seq![34u8, 58u8]
            + crate::json::spec_print(fields[from].1);
        assert forall|i: int| 0 <= i < entry.len() implies entry[i] != 4 by {
            let esc = crate::json::spec_escape(fields[from].0, 0);
            let pr = crate::json::spec_print(fields[from].1);
            if 1 <= i < 1 + esc.len() {
                assert(entry[i] == esc[i - 1]);
            } else if i >= 3 + esc.len() {
                assert(entry[i] == pr[i - 3 - esc.len()]);
            }
        }
        if from == fields.len() - 1 {
            assert forall|i: int|
                0 <= i < crate::json::spec_print_fields(fields, from).len() implies crate::json::spec_print_fields(
                fields,
                from,
            )[i] != 4 by {
                assert(crate::json::spec_print_fields(fields, from)[i] == entry[i]);
            }
        }
        if from < fields.len() - 1 {
            lemma_print_fields_no_eot(fields, from + 1);
            assert forall|i: int|
                0 <= i < crate::json::spec_print_fields(fields, from).len() implies crate::json::spec_print_fields(
                fields,
                from,
            )[i] != 4 by {
                if i >= entry.len() + 1 {
                    assert(crate::json::spec_print_fields(fields, from)[i]
                        == crate::json::spec_print_fields(fields, from + 1)[i - entry.len() - 1]);
                } else if i < entry.len() {
                    assert(crate::json::spec_print_fields(fields, from)[i] == entry[i]);
                } else {
                    assert(crate::json::spec_print_fields(fields, from)[i] == 44u8);
                }
            }
        }
    }
}

proof fn lemma_first_eot_is(buf: Seq<u8>, i: int, m: int)
    requires
        0 <= i <= m < buf.len(),
        buf[m] == 4,
        forall|k: int| i <= k < m ==> buf[k] != 4,
    ensures
        first_eot(buf, i) == m,
    decreases m - i,
{
    if i < m {
        lemma_first_eot_is(buf, i + 1, m);
    }
}

/// Framing inverts emission: a message without terminator bytes, framed with
/// its terminator in front of whatever follows, splits off as exactly one
/// frame, leaving the rest to split on its own.
pub proof fn lemma_frames_of_framed_message(msg: Seq<u8>, rest: Seq<u8>)
    requires
        forall|i: int| 0 <= i < msg.len() ==> msg[i] != 4,
    ensures
        spec_frames(msg + seq![EOT] + rest) == seq![msg] + spec_frames(rest),
        spec_remainder(msg + seq![EOT] + rest) == spec_remainder(rest),
{
    let buf = msg + seq![EOT] + rest;
    let m = msg.len() as int;
    assert(buf[m] == 4);
    assert(forall|k: int| 0 <= k < m ==> buf[k] == msg[k]);
    lemma_first_eot_is(buf, 0, m);
    assert(buf.subrange(0, m) =~= msg);
    assert(buf.subrange(m + 1, buf.len() as int) =~= rest);
}

/// One reply per frame, end to end: a whole stream of framed messages, none
/// holding a terminator byte of its own, splits back into exactly those
/// messages in order, with nothing left over.
pub proof fn lemma_frames_of_stream(msgs: Seq<Seq<u8>>)
    requires
        forall|j: int, i: int|
            0 <= j < msgs.len() && 0 <= i < msgs[j].len() ==> #[trigger] msgs[j][i] != 4,
    ensures
        spec_frames(spec_stream(msgs)) == msgs,
        spec_remainder(spec_stream(msgs)) == Seq::<u8>::empty(),
    decreases msgs.len(),
{
    if msgs.len() == 0 {
        assert(spec_stream(msgs) =~= Seq::<u8>::empty());
        assert(first_eot(Seq::<u8>::empty(), 0) == 0);
        assert(spec_frames(Seq::<u8>::empty()) =~= Seq::<Seq<u8>>::empty());
    } else {
        lemma_frames_of_stream(msgs.drop_first());
        assert(forall|i: int| 0 <= i < msgs[0].len() ==> msgs[0][i] != 4);
        lemma_frames_of_framed_message(msgs[0], spec_stream(msgs.drop_first()));
        assert(seq![msgs[0]] + msgs.drop_first() =~= msgs);
    }
}

/// The bytes of a sequence of framed messages, as they leave the pipe: each
/// message followed by its terminator.
pub open spec fn spec_stream(msgs: Seq<Seq<u8>>) -> Seq<u8>
    decreases msgs.len(),
{
    if msgs.len() == 0 {
        Seq::empty()
    } else {
        msgs[0] + seq![EOT] + spec_stream(msgs.drop_first())
    }
}

} // verus!
