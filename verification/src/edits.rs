//! Translation of editor content changes into buffer mutations and
//! syntax-tree edit descriptors.
//!
//! A batch of changes is applied strictly sequentially: each change's
//! range is read against the buffer as mutated by the changes before it.

use vstd::prelude::*;
use vstd::utf8::encode_utf8;

use crate::convert::{offset_to_position, point_at, position_to_offset, spec_position_to_offset};
use crate::types::{LspRange, TsPoint};

verus! {

/// The byte/point delta record describing one buffer mutation, consumed
/// by the incremental parser to reuse unaffected subtrees.
#[derive(Clone, Copy, Debug, PartialEq, Eq, Structural)]
pub struct EditDescriptor {
    pub start_byte: usize,
    pub old_end_byte: usize,
    pub new_end_byte: usize,
    pub start_position: TsPoint,
    pub old_end_position: TsPoint,
    pub new_end_position: TsPoint,
}

/// One editor content change: either a full-document replacement (no
/// range) or a replacement of the given range by `text`.
#[derive(Clone, Debug)]
pub struct ContentChange {
    pub range: Option<LspRange>,
    pub text: String,
}

/// The replacement text of a change, as bytes.
pub open spec fn text_bytes(c: ContentChange) -> Seq<u8> {
    encode_utf8(c.text@)
}

/// The start byte of a change against `buf`: 0 for a full replacement,
/// otherwise the offset its start position denotes.
pub open spec fn spec_change_start(buf: Seq<u8>, c: ContentChange) -> int {
    match c.range {
        Option::None => 0,
        Option::Some(r) => spec_position_to_offset(
            buf,
            (r.start.line as int, r.start.character as int),
        ),
    }
}

/// The (pre-edit) end byte of a change against `buf`: the buffer length
/// for a full replacement, otherwise the offset its end position denotes,
/// clamped so that it never precedes the start byte.
pub open spec fn spec_change_end(buf: Seq<u8>, c: ContentChange) -> int {
    match c.range {
        Option::None => buf.len() as int,
        Option::Some(r) => {
            let s = spec_change_start(buf, c);
            let e = spec_position_to_offset(buf, (r.end.line as int, r.end.character as int));
            if e < s {
                s
            } else {
                e
            }
        },
    }
}

/// The buffer after one change: the bytes before the start, the
/// replacement text, and the bytes after the end.
pub open spec fn spec_apply_change(buf: Seq<u8>, c: ContentChange) -> Seq<u8> {
    buf.subrange(0, spec_change_start(buf, c)) + text_bytes(c) + buf.subrange(
        spec_change_end(buf, c),
        buf.len() as int,
    )
}

/// Whether `e` is the edit descriptor of change `c` against `buf`:
/// `start_byte`/`old_end_byte` span the replaced bytes, `new_end_byte`
/// is the start plus the replacement length, and each point is read off
/// the buffer state that its byte offset refers to.
pub open spec fn edit_describes(buf: Seq<u8>, c: ContentChange, e: EditDescriptor) -> bool {
    let s = spec_change_start(buf, c);
    let oe = spec_change_end(buf, c);
    let nb = spec_apply_change(buf, c);
    &&& e.start_byte as int == s
    &&& e.old_end_byte as int == oe
    &&& e.new_end_byte as int == s + text_bytes(c).len()
    &&& (e.start_position.row as int, e.start_position.column as int) == point_at(buf, s)
    &&& (e.old_end_position.row as int, e.old_end_position.column as int) == point_at(buf, oe)
    &&& (e.new_end_position.row as int, e.new_end_position.column as int) == point_at(
        nb,
        e.new_end_byte as int,
    )
}

/// Appends `src[from..to]` to `dst`.
fn append_slice_range(dst: &mut Vec<u8>, src: &[u8], from: usize, to: usize)
    requires
        from <= to <= src@.len(),
    ensures
        final(dst)@ == old(dst)@ + src@.subrange(from as int, to as int),
{
    let mut i: usize = from;
    while i < to
        invariant
            from <= i <= to <= src@.len(),
            dst@ == old(dst)@ + src@.subrange(from as int, i as int),
        decreases to - i,
    {
        dst.push(src[i]);
        proof {
            assert(src@.subrange(from as int, i as int).push(src@[i as int]) =~= src@.subrange(
                from as int,
                i as int + 1,
            ));
            assert((old(dst)@ + src@.subrange(from as int, i as int)).push(src@[i as int])
                =~= old(dst)@ + src@.subrange(from as int, i as int + 1));
        }
        i = i + 1;
    }
    proof {
        if from == to {
            assert(src@.subrange(from as int, to as int) =~= Seq::<u8>::empty());
            assert(dst@ =~= old(dst)@ + src@.subrange(from as int, to as int));
        }
    }
}

/// Applies one content change to the buffer and returns its edit
/// descriptor. A missing range replaces the whole buffer; an end
/// position before the start clamps to the start (malformed ranges are
/// clamped, never indexed blindly).
pub fn translate_change(buffer: &mut Vec<u8>, change: &ContentChange) -> (e: EditDescriptor)
    ensures
        final(buffer)@ == spec_apply_change(old(buffer)@, *change),
        edit_describes(old(buffer)@, *change, e),
        e.start_byte <= e.old_end_byte,
{
    let (start_byte, end_byte): (usize, usize) = match &change.range {
        Option::None => (0usize, buffer.len()),
        Option::Some(r) => {
            let sp = TsPoint { row: r.start.line as usize, column: r.start.character as usize };
            let ep = TsPoint { row: r.end.line as usize, column: r.end.character as usize };
            let s = position_to_offset(buffer.as_slice(), sp);
            let e0 = position_to_offset(buffer.as_slice(), ep);
            let e = if e0 < s {
                s
            } else {
                e0
            };
            (s, e)
        },
    };
    let start_position = offset_to_position(buffer.as_slice(), start_byte);
    let old_end_position = offset_to_position(buffer.as_slice(), end_byte);
    let text_b: &[u8] = change.text.as_str().as_bytes();
    let mut nb: Vec<u8> = Vec::new();
    append_slice_range(&mut nb, buffer.as_slice(), 0, start_byte);
    append_slice_range(&mut nb, text_b, 0, text_b.len());
    append_slice_range(&mut nb, buffer.as_slice(), end_byte, buffer.len());
    proof {
        assert(nb@ =~= spec_apply_change(buffer@, *change));
    }
    let total: usize = nb.len();
    proof {
        assert(start_byte as int + text_b@.len() <= total as int);
    }
    let new_end_byte: usize = start_byte + text_b.len();
    let new_end_position = offset_to_position(nb.as_slice(), new_end_byte);
    *buffer = nb;
    EditDescriptor {
        start_byte,
        old_end_byte: end_byte,
        new_end_byte,
        start_position,
        old_end_position,
        new_end_position,
    }
}

/// The buffer after a whole batch of changes, applied in order; each
/// change is read against the buffer already holding the effect of the
/// changes before it.
pub open spec fn spec_apply_changes(buf: Seq<u8>, changes: Seq<ContentChange>) -> Seq<u8>
    decreases changes.len(),
{
    if changes.len() == 0 {
        buf
    } else {
        spec_apply_changes(spec_apply_change(buf, changes[0]), changes.drop_first())
    }
}

/// The buffer state just before change `i` of a batch is applied.
pub open spec fn spec_buffer_before(buf: Seq<u8>, changes: Seq<ContentChange>, i: int) -> Seq<u8> {
    spec_apply_changes(buf, changes.take(i))
}

/// A batch applies sequentially: the buffer before change `i + 1` is the
/// buffer before change `i` with change `i` applied. In particular, in a
/// batch of two, the second change's byte offsets are computed against
/// the buffer already containing the first change's effect.
pub proof fn lemma_batch_applies_sequentially(buf: Seq<u8>, changes: Seq<ContentChange>, i: int)
    requires
        0 <= i < changes.len(),
    ensures
        spec_buffer_before(buf, changes, i + 1) == spec_apply_change(
            spec_buffer_before(buf, changes, i),
            changes[i],
        ),
        spec_apply_changes(buf, changes) == spec_apply_changes(
            spec_buffer_before(buf, changes, i + 1),
            changes.skip(i + 1),
        ),
{
    lemma_apply_changes_split(buf, changes, i + 1);
    lemma_take_one_more(buf, changes, i);
}

pub proof fn lemma_take_one_more(buf: Seq<u8>, changes: Seq<ContentChange>, i: int)
    requires
        0 <= i < changes.len(),
    ensures
        spec_apply_changes(buf, changes.take(i + 1)) == spec_apply_change(
            spec_apply_changes(buf, changes.take(i)),
            changes[i],
        ),
    decreases i,
{
    if i == 0 {
        let t1 = changes.take(1);
        assert(changes.take(0) =~= Seq::<ContentChange>::empty());
        assert(t1.len() == 1 && t1[0] == changes[0]);
        assert(t1.drop_first() =~= Seq::<ContentChange>::empty());
        assert(spec_apply_changes(buf, t1) == spec_apply_changes(
            spec_apply_change(buf, t1[0]),
            t1.drop_first(),
        ));
        assert(spec_apply_changes(spec_apply_change(buf, changes[0]), Seq::<
            ContentChange,
        >::empty()) == spec_apply_change(buf, changes[0]));
        assert(spec_apply_changes(buf, changes.take(0)) == buf);
    } else {
        let c0 = changes[0];
        let rest = changes.drop_first();
        let buf1 = spec_apply_change(buf, c0);
        assert(changes.take(i + 1).len() == i + 1);
        assert(changes.take(i + 1)[0] == c0);
        assert(changes.take(i + 1).drop_first() =~= rest.take(i));
        assert(spec_apply_changes(buf, changes.take(i + 1)) == spec_apply_changes(
            buf1,
            rest.take(i),
        ));
        assert(changes.take(i).len() == i);
        assert(changes.take(i)[0] == c0);
        assert(changes.take(i).drop_first() =~= rest.take(i - 1));
        assert(spec_apply_changes(buf, changes.take(i)) == spec_apply_changes(
            buf1,
            rest.take(i - 1),
        ));
        lemma_take_one_more(buf1, rest, i - 1);
        assert(rest[i - 1] == changes[i]);
    }
}

proof fn lemma_apply_changes_split(buf: Seq<u8>, changes: Seq<ContentChange>, i: int)
    requires
        0 <= i <= changes.len(),
    ensures
        spec_apply_changes(buf, changes) == spec_apply_changes(
            spec_apply_changes(buf, changes.take(i)),
            changes.skip(i),
        ),
    decreases i,
{
    if i == 0 {
        assert(changes.take(0) =~= Seq::<ContentChange>::empty());
        assert(changes.skip(0) =~= changes);
    } else {
        let c0 = changes[0];
        let rest = changes.drop_first();
        assert(changes.take(i)[0] == c0);
        assert(changes.take(i).drop_first() =~= rest.take(i - 1));
        assert(changes.skip(i) =~= rest.skip(i - 1));
        lemma_apply_changes_split(spec_apply_change(buf, c0), rest, i - 1);
    }
}

/// Applies a batch of changes to the buffer, strictly in order, and
/// returns the edit descriptor of each change, each read against the
/// buffer state that the changes before it produced.
pub fn translate_changes(buffer: &mut Vec<u8>, changes: &Vec<ContentChange>) -> (edits: Vec<
    EditDescriptor,
>)
    ensures
        final(buffer)@ == spec_apply_changes(old(buffer)@, changes@),
        edits@.len() == changes@.len(),
        forall|i: int|
            0 <= i < changes@.len() ==> edit_describes(
                spec_buffer_before(old(buffer)@, changes@, i),
                changes@[i],
                #[trigger] edits@[i],
            ),
{
    let mut edits: Vec<EditDescriptor> = Vec::new();
    let n: usize = changes.len();
    let mut i: usize = 0;
    proof {
        assert(changes@.take(0) =~= Seq::<ContentChange>::empty());
    }
    while i < n
        invariant
            0 <= i <= n == changes@.len(),
            edits@.len() == i,
            buffer@ == spec_buffer_before(old(buffer)@, changes@, i as int),
            forall|j: int|
                0 <= j < i ==> edit_describes(
                    spec_buffer_before(old(buffer)@, changes@, j),
                    changes@[j],
                    #[trigger] edits@[j],
                ),
        decreases n - i,
    {
        let e = translate_change(buffer, &changes[i]);
        edits.push(e);
        proof {
            lemma_take_one_more(old(buffer)@, changes@, i as int);
        }
        i = i + 1;
    }
    proof {
        assert(changes@.take(n as int) =~= changes@);
    }
    edits
}

} // verus!
