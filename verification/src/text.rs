//! The string bridge: texts as zero-terminated byte strings on the native heap.

use vstd::prelude::*;
use vstd::slice::slice_to_vec;
use vstd::utf8::{decode_utf8, encode_utf8, valid_utf8};
use crate::heap::{Block, BlockView, NativeHeap, NULL};

verus! {

/// Why a projection onto the native heap did not take place.
#[derive(Clone, Copy, Debug, PartialEq, Eq, Structural)]
pub enum ProjectionError {
    /// The heap has too few addresses left for the blocks that are needed.
    AllocationFailure,
    /// A text holds a zero byte, which a zero-terminated string cannot carry.
    InvalidText,
}

/// A text can cross the bridge if its UTF-8 encoding holds no zero byte.
pub open spec fn is_valid_text(text: Seq<char>) -> bool {
    !encode_utf8(text).contains(0u8)
}

/// The bytes of the native form of a text: its UTF-8 encoding and one zero.
pub open spec fn native_text(text: Seq<char>) -> Seq<u8> {
    encode_utf8(text).push(0u8)
}

/// The text block of a text.
pub open spec fn text_block(text: Seq<char>) -> BlockView {
    BlockView::Text(native_text(text))
}

/// The bytes before the terminator of the text at `address`, if a terminated
/// text is live there.
pub open spec fn text_at(blocks: Map<usize, BlockView>, address: usize) -> Option<Seq<u8>> {
    if blocks.contains_key(address) {
        match blocks[address] {
            BlockView::Text(bytes) => if bytes.len() > 0 && bytes.last() == 0u8 {
                Some(bytes.drop_last())
            } else {
                None
            },
            _ => None,
        }
    } else {
        None
    }
}

/// The text that the native string at `address` spells, if a terminated text
/// in UTF-8 is live there.
pub open spec fn string_at(blocks: Map<usize, BlockView>, address: usize) -> Option<Seq<char>> {
    match text_at(blocks, address) {
        Some(bytes) => if valid_utf8(bytes) {
            Some(decode_utf8(bytes))
        } else {
            None
        },
        None => None,
    }
}

/// `address` stands for the optional text `text`: null for an absent text,
/// else the address of its native form.
pub open spec fn represents_text(
    blocks: Map<usize, BlockView>,
    address: usize,
    text: Option<Seq<char>>,
) -> bool {
    match text {
        Some(t) => address != NULL && blocks.contains_key(address) && blocks[address]
            == text_block(t),
        None => address == NULL,
    }
}

/// A native text reads back as the text that it was made from.
pub proof fn lemma_text_round_trip(blocks: Map<usize, BlockView>, address: usize, text: Seq<char>)
    requires
        blocks.contains_key(address),
        blocks[address] == text_block(text),
    ensures
        text_at(blocks, address) == Some(encode_utf8(text)),
        string_at(blocks, address) == Some(text),
{
    vstd::utf8::encode_utf8_valid_utf8(text);
    vstd::utf8::encode_utf8_decode_utf8(text);
    assert(native_text(text).drop_last() =~= encode_utf8(text));
}

/// Where a terminated UTF-8 text is live, the block is the native form of the
/// text that it spells.
pub proof fn lemma_string_at_block(blocks: Map<usize, BlockView>, address: usize)
    requires
        string_at(blocks, address) is Some,
    ensures
        blocks.contains_key(address),
        blocks[address] == text_block(string_at(blocks, address).unwrap()),
{
    let bytes = text_at(blocks, address).unwrap();
    vstd::utf8::decode_utf8_encode_utf8(bytes);
    assert(bytes.push(0u8) =~= blocks[address]->Text_0);
}

/// Whether the UTF-8 encoding of `text` holds a zero byte.
pub fn has_interior_nul(text: &str) -> (found: bool)
    ensures
        found == !is_valid_text(text@),
{
    let bytes = text.as_bytes();
    let mut i: usize = 0;
    while i < bytes.len()
        invariant
            i <= bytes@.len(),
            bytes@ == encode_utf8(text@),
            forall|j: int| 0 <= j < i ==> bytes@[j] != 0u8,
        decreases bytes@.len() - i,
    {
        if bytes[i] == 0 {
            return true;
        }
        i = i + 1;
    }
    false
}

/// The native form of `text`, or `None` if it holds a zero byte.
pub fn encode_text(text: &str) -> (bytes: Option<Vec<u8>>)
    ensures
        bytes is Some <==> is_valid_text(text@),
        bytes is Some ==> bytes.unwrap()@ == native_text(text@),
{
    if has_interior_nul(text) {
        return None;
    }
    let mut bytes = slice_to_vec(text.as_bytes());
    bytes.push(0u8);
    Some(bytes)
}

/// Places the native form of a text that can cross the bridge on a heap that
/// has room for it.
pub fn place_text(heap: &mut NativeHeap, text: &str) -> (address: usize)
    requires
        old(heap).wf(),
        old(heap).room() > 0,
        is_valid_text(text@),
    ensures
        final(heap).wf(),
        final(heap).limit() == old(heap).limit(),
        address == old(heap).next(),
        address != NULL,
        final(heap).next() == old(heap).next() + 1,
        final(heap)@ == old(heap)@.insert(address, text_block(text@)),
        old(heap).grown_to(final(heap)),
{
    let mut bytes = slice_to_vec(text.as_bytes());
    bytes.push(0u8);
    heap.place(Block::Text(bytes))
}

/// Allocates the native form of `text`. A text with a zero byte is refused
/// before anything is allocated; a full heap is left as it was.
pub fn to_c_str(heap: &mut NativeHeap, text: &str) -> (r: Result<usize, ProjectionError>)
    requires
        old(heap).wf(),
    ensures
        final(heap).wf(),
        final(heap).limit() == old(heap).limit(),
        r is Ok <==> is_valid_text(text@) && old(heap).room() > 0,
        r == Err::<usize, ProjectionError>(ProjectionError::InvalidText) <==> !is_valid_text(
            text@,
        ),
        r is Err ==> final(heap).same_as(old(heap)),
        r is Ok ==> {
            &&& r.unwrap() == old(heap).next()
            &&& r.unwrap() != NULL
            &&& final(heap).next() == old(heap).next() + 1
            &&& final(heap)@ == old(heap)@.insert(r.unwrap(), text_block(text@))
            &&& old(heap).grown_to(final(heap))
        },
{
    match encode_text(text) {
        None => Err(ProjectionError::InvalidText),
        Some(bytes) => match heap.allocate(Block::Text(bytes)) {
            Some(address) => Ok(address),
            None => Err(ProjectionError::AllocationFailure),
        },
    }
}

/// Releases the native text at `address` and says whether anything was
/// released. The null address, an address that was released before and an
/// address that holds no text are left alone.
pub fn free_cstring(heap: &mut NativeHeap, address: usize) -> (released: bool)
    requires
        old(heap).wf(),
    ensures
        final(heap).wf(),
        final(heap).limit() == old(heap).limit(),
        final(heap).next() == old(heap).next(),
        released == (old(heap)@.contains_key(address) && old(heap)@[address] is Text),
        released ==> final(heap)@ == old(heap)@.remove(address),
        !released ==> final(heap)@ == old(heap)@,
{
    if heap.text(address).is_some() {
        heap.free(address)
    } else {
        false
    }
}

/// The bytes before the terminator of the text at `address`.
pub fn read_text(heap: &NativeHeap, address: usize) -> (bytes: Option<Vec<u8>>)
    ensures
        bytes is Some <==> text_at(heap@, address) is Some,
        bytes is Some ==> bytes.unwrap()@ == text_at(heap@, address).unwrap(),
{
    match heap.text(address) {
        None => None,
        Some(stored) => {
            let n = stored.len();
            if n == 0 || stored[n - 1] != 0 {
                return None;
            }
            let mut bytes: Vec<u8> = Vec::new();
            let mut i: usize = 0;
            while i < n - 1
                invariant
                    n == stored@.len(),
                    n > 0,
                    i <= n - 1,
                    bytes@ == stored@.subrange(0, i as int),
                decreases n - 1 - i,
            {
                bytes.push(stored[i]);
                assert(bytes@ =~= stored@.subrange(0, i + 1));
                i = i + 1;
            }
            assert(bytes@ =~= stored@.drop_last());
            Some(bytes)
        },
    }
}

/// `String::from_utf8` of std: the string that `bytes` encode, or `None` if
/// they are not UTF-8. The contract says what std documents: success exactly
/// on valid UTF-8, and a string whose characters are the decoded bytes.
#[verifier::external_body]
fn string_from_utf8(bytes: Vec<u8>) -> (text: Option<String>)
    ensures
        text is Some <==> valid_utf8(bytes@),
        text is Some ==> text.unwrap()@ == decode_utf8(bytes@),
{
    String::from_utf8(bytes).ok()
}

/// The text that the native string at `address` spells.
pub fn read_string(heap: &NativeHeap, address: usize) -> (text: Option<String>)
    ensures
        text is Some <==> string_at(heap@, address) is Some,
        text is Some ==> text.unwrap()@ == string_at(heap@, address).unwrap(),
{
    match read_text(heap, address) {
        None => None,
        Some(bytes) => string_from_utf8(bytes),
    }
}

/// The optional text behind `address`: an absent text for the null address,
/// else the text that the native string there spells. `None` if the address is
/// not null and no terminated UTF-8 text is live there.
pub fn read_opt_string(heap: &NativeHeap, address: usize) -> (text: Option<Option<String>>)
    ensures
        text is Some <==> address == NULL || string_at(heap@, address) is Some,
        text is Some && address == NULL ==> text.unwrap() is None,
        text is Some && address != NULL ==> text.unwrap() is Some && text.unwrap().unwrap()@
            == string_at(heap@, address).unwrap(),
{
    if address == NULL {
        Some(None)
    } else {
        match read_string(heap, address) {
            Some(s) => Some(Some(s)),
            None => None,
        }
    }
}

} // verus!
