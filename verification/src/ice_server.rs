//! The ICE server descriptor, its flat mirror, and the projection of string
//! arrays that the mirror relies on.

use vstd::prelude::*;
use libc::c_int;
use crate::heap::{address_range, Block, BlockView, NativeHeap, NULL};
use crate::text::{
    has_interior_nul, is_valid_text, lemma_string_at_block, lemma_text_round_trip, place_text,
    read_opt_string, read_string, represents_text, string_at, text_block, ProjectionError,
};

verus! {

/// The largest element count that a mirror can express.
pub const MAX_COUNT: usize = 0x7fff_ffff;

/// The flat mirror of an [`RTCIceServer`]. Field order is that of the native
/// layout.
#[derive(Clone, Copy, Debug, PartialEq, Eq, Structural)]
pub struct RawRTCIceServer {
    /// Address of the credential text, or null.
    pub credential: usize,
    /// Address of the array of URL texts, or null.
    pub urls: usize,
    pub urls_size: c_int,
    pub urls_capacity: c_int,
    /// Address of the user name text, or null.
    pub username: usize,
}

/// One server that the ICE agent may use, typically a STUN or TURN server.
#[derive(Clone, Debug)]
pub struct RTCIceServer {
    /// The credential to use when logging into a TURN server.
    pub credential: Option<String>,
    /// The user name to use when logging into a TURN server.
    pub username: Option<String>,
    /// The URLs under which the server can be reached.
    pub urls: Option<Vec<String>>,
}

/// The mathematical value of an [`RTCIceServer`]. An absent list of URLs and
/// an empty one are the same value: the mirror cannot tell them apart.
pub ghost struct IceServerView {
    pub credential: Option<Seq<char>>,
    pub username: Option<Seq<char>>,
    pub urls: Seq<Seq<char>>,
}

/// The characters of an optional string.
pub open spec fn opt_text(text: Option<String>) -> Option<Seq<char>> {
    match text {
        Some(s) => Some(s@),
        None => None,
    }
}

/// The characters of each string of a list.
pub open spec fn texts(list: Seq<String>) -> Seq<Seq<char>> {
    Seq::new(list.len(), |i: int| list[i]@)
}

/// The characters of each string of an optional list.
pub open spec fn opt_texts(list: Option<Vec<String>>) -> Seq<Seq<char>> {
    match list {
        Some(l) => texts(l@),
        None => Seq::empty(),
    }
}

/// Every text of the list can cross the bridge.
pub open spec fn all_valid(list: Seq<Seq<char>>) -> bool {
    forall|i: int| 0 <= i < list.len() ==> is_valid_text(#[trigger] list[i])
}

/// An optional text, if present, can cross the bridge.
pub open spec fn opt_valid(text: Option<Seq<char>>) -> bool {
    text is Some ==> is_valid_text(text.unwrap())
}

/// The number of blocks that a string array of `n` items takes: none for an
/// empty array, else one for each item and one for the array.
pub open spec fn array_blocks(n: nat) -> nat {
    if n == 0 {
        0
    } else {
        n + 1
    }
}

/// The number of blocks that an optional text takes.
pub open spec fn opt_blocks(text: Option<Seq<char>>) -> nat {
    if text is Some {
        1
    } else {
        0
    }
}

/// The array that `place_strings` returns for `list` on a heap whose next
/// address was `base`, and the blocks that it leaves: the texts in the order
/// of the list at the addresses from `base` on, then the array of their
/// addresses. An empty list leaves nothing and gives the null address.
pub open spec fn strings_placed(
    base: nat,
    blocks: Map<usize, BlockView>,
    list: Seq<Seq<char>>,
    array: usize,
) -> bool {
    if list.len() == 0 {
        array == NULL
    } else {
        &&& array == base + list.len()
        &&& blocks.contains_key(array)
        &&& blocks[array] == BlockView::Pointers(
            Seq::new(list.len(), |i: int| (base + i) as usize),
        )
        &&& forall|i: int|
            0 <= i < list.len() ==> blocks.contains_key((base + i) as usize) && blocks[(base
                + i) as usize] == text_block(#[trigger] list[i])
    }
}

impl View for RTCIceServer {
    type V = IceServerView;

    open spec fn view(&self) -> IceServerView {
        IceServerView {
            credential: opt_text(self.credential),
            username: opt_text(self.username),
            urls: opt_texts(self.urls),
        }
    }
}

impl IceServerView {
    /// Every text of the server can cross the bridge.
    pub open spec fn valid(self) -> bool {
        &&& all_valid(self.urls)
        &&& opt_valid(self.credential)
        &&& opt_valid(self.username)
    }

    /// The mirror's count fields can express the number of URLs.
    pub open spec fn fits(self) -> bool {
        self.urls.len() <= MAX_COUNT
    }

    /// The number of native blocks that the projection takes.
    pub open spec fn blocks_needed(self) -> nat {
        array_blocks(self.urls.len()) + opt_blocks(self.credential) + opt_blocks(self.username)
    }

    /// The mirror that a projection gives on a heap whose next address is
    /// `base`: the URLs are placed first, then their array, the credential and
    /// the user name, each at the next address.
    pub open spec fn mirror(self, base: nat) -> RawRTCIceServer {
        let after_urls = base + array_blocks(self.urls.len());
        RawRTCIceServer {
            credential: if self.credential is Some {
                after_urls as usize
            } else {
                NULL
            },
            urls: if self.urls.len() == 0 {
                NULL
            } else {
                (base + self.urls.len()) as usize
            },
            urls_size: self.urls.len() as c_int,
            urls_capacity: self.urls.len() as c_int,
            username: if self.username is Some {
                (after_urls + opt_blocks(self.credential)) as usize
            } else {
                NULL
            },
        }
    }

    /// `raw` reads as this server in `blocks`: absent texts are null, present
    /// ones are the addresses of their native forms, and the URLs are found
    /// in their order behind `raw.urls`, which is null exactly if there is none.
    pub open spec fn represented_by(self, blocks: Map<usize, BlockView>, raw: RawRTCIceServer) -> bool {
        &&& represents_text(blocks, raw.credential, self.credential)
        &&& represents_text(blocks, raw.username, self.username)
        &&& raw.urls_size == self.urls.len()
        &&& raw.urls_capacity == self.urls.len()
        &&& raw.urls == NULL <==> self.urls.len() == 0
        &&& self.urls.len() > 0 ==> {
            &&& blocks.contains_key(raw.urls)
            &&& blocks[raw.urls] is Pointers
            &&& blocks[raw.urls]->Pointers_0.len() == self.urls.len()
            &&& forall|i: int|
                0 <= i < self.urls.len() ==> represents_text(
                    blocks,
                    blocks[raw.urls]->Pointers_0[i],
                    Some(#[trigger] self.urls[i]),
                )
        }
    }

    /// What a successful projection of this server from heap `before` to heap
    /// `after` gives: the mirror is the one that `mirror` names, the heap grew
    /// by exactly the blocks needed, the mirror reads as this server, and it
    /// owns exactly the blocks that were added.
    pub open spec fn projected(
        self,
        before: &NativeHeap,
        after: &NativeHeap,
        raw: RawRTCIceServer,
    ) -> bool {
        &&& raw == self.mirror(before.next())
        &&& after.next() == before.next() + self.blocks_needed()
        &&& before.grown_to(after)
        &&& strings_placed(before.next(), after@, self.urls, raw.urls)
        &&& self.represented_by(after@, raw)
        &&& raw.owned_blocks(after@) =~= address_range(before.next(), after.next())
    }
}

impl RawRTCIceServer {
    /// The addresses that the mirror answers for: its non-null text fields,
    /// its array, and the items of that array.
    pub open spec fn owned_blocks(self, blocks: Map<usize, BlockView>) -> Set<usize> {
        Set::new(
            |a: usize|
                a != NULL && (a == self.credential || a == self.username || a == self.urls || (
                blocks.contains_key(self.urls) && blocks[self.urls] is Pointers
                    && blocks[self.urls]->Pointers_0.contains(a))),
        )
    }
}

/// The first `n` addresses of `items` are not null and spell the first `n`
/// texts of `list`, in their order.
pub open spec fn strings_read(
    blocks: Map<usize, BlockView>,
    items: Seq<usize>,
    list: Seq<Seq<char>>,
    n: int,
) -> bool {
    &&& forall|j: int| 0 <= j < n ==> #[trigger] items[j] != NULL
    &&& forall|j: int| 0 <= j < n ==> string_at(blocks, #[trigger] items[j]) == Some(list[j])
}

/// The first `n` addresses of `items`, as a set.
pub open spec fn prefix_addresses(items: Seq<usize>, n: int) -> Set<usize> {
    Set::new(|a: usize| exists|j: int| 0 <= j < n && j < items.len() && #[trigger] items[j] == a)
}

impl Default for RTCIceServer {
    /// A server with no credential, no user name and no URLs.
    fn default() -> (server: RTCIceServer)
        ensures
            server.credential is None,
            server.username is None,
            server.urls is None,
    {
        RTCIceServer::new()
    }
}

impl RTCIceServer {
    /// This server and `other` hold the same credential, the same user name
    /// and the same URLs in the same order, an absent list being unlike an
    /// empty one.
    pub open spec fn same_as(&self, other: &RTCIceServer) -> bool {
        &&& self.credential == other.credential
        &&& self.username == other.username
        &&& self.urls is Some <==> other.urls is Some
        &&& self.urls is Some ==> self.urls.unwrap()@ == other.urls.unwrap()@
    }

    /// A copy of the server, field for field.
    pub fn duplicate(&self) -> (copy: RTCIceServer)
        ensures
            copy.same_as(self),
            copy@ == self@,
    {
        let credential = match &self.credential {
            Some(text) => Some(text.clone()),
            None => None,
        };
        let username = match &self.username {
            Some(text) => Some(text.clone()),
            None => None,
        };
        let urls = match &self.urls {
            Some(list) => {
                let mut copies: Vec<String> = Vec::new();
                let mut i: usize = 0;
                while i < list.len()
                    invariant
                        i <= list@.len(),
                        copies@ =~= list@.subrange(0, i as int),
                    decreases list@.len() - i,
                {
                    copies.push(list[i].clone());
                    i = i + 1;
                }
                assert(copies@ =~= list@);
                Some(copies)
            },
            None => None,
        };
        RTCIceServer { credential, username, urls }
    }

    /// A server with no credential, no user name and no URLs.
    pub fn new() -> (server: RTCIceServer)
        ensures
            server.credential is None,
            server.username is None,
            server.urls is None,
    {
        RTCIceServer { credential: None, username: None, urls: None }
    }

    /// Whether every text of the server can cross the bridge.
    pub fn is_valid(&self) -> (ok: bool)
        ensures
            ok == self@.valid(),
    {
        let urls_ok = match &self.urls {
            Some(list) => strings_valid(list),
            None => true,
        };
        urls_ok && opt_string_valid(&self.credential) && opt_string_valid(&self.username)
    }

    /// Whether the mirror's count fields can express the number of URLs.
    pub fn fits(&self) -> (ok: bool)
        ensures
            ok == self@.fits(),
    {
        match &self.urls {
            Some(list) => list.len() <= MAX_COUNT,
            None => true,
        }
    }

    /// The number of native blocks that the projection takes.
    pub fn count_blocks(&self) -> (n: usize)
        requires
            self@.fits(),
        ensures
            n == self@.blocks_needed(),
            n <= MAX_COUNT + 3,
    {
        let urls: usize = match &self.urls {
            Some(list) => if list.len() == 0 {
                0
            } else {
                list.len() + 1
            },
            None => 0,
        };
        let credential: usize = if self.credential.is_some() {
            1
        } else {
            0
        };
        let username: usize = if self.username.is_some() {
            1
        } else {
            0
        };
        urls + credential + username
    }

    /// Projects a server whose texts are valid onto a heap that has room for
    /// it: the URLs and their array first, then the credential, then the user
    /// name.
    pub fn place(&self, heap: &mut NativeHeap) -> (raw: RawRTCIceServer)
        requires
            old(heap).wf(),
            self@.valid(),
            self@.fits(),
            self@.blocks_needed() <= old(heap).room(),
        ensures
            final(heap).wf(),
            final(heap).limit() == old(heap).limit(),
            self@.projected(old(heap), final(heap), raw),
    {
        let ghost before = *heap;
        let ghost base = heap.next();
        let (urls, n): (usize, usize) = match &self.urls {
            Some(list) => (place_strings(heap, list), list.len()),
            None => (NULL, 0),
        };
        let ghost mid1 = *heap;
        proof {
            before.lemma_live_range();
            assert(self@.urls.len() == n);
            assert(mid1.next() == base + array_blocks(n as nat));
        }
        let credential = place_opt_text(heap, &self.credential);
        let ghost mid2 = *heap;
        let username = place_opt_text(heap, &self.username);
        let raw = RawRTCIceServer {
            credential,
            urls,
            urls_size: n as c_int,
            urls_capacity: n as c_int,
            username,
        };
        proof {
            let view = self@;
            heap.lemma_live_range();
            before.lemma_grown_trans(&mid1, &mid2);
            before.lemma_grown_trans(&mid2, heap);
            mid1.lemma_grown_trans(&mid2, heap);
            assert(strings_placed(base, mid1@, view.urls, urls));
            if n > 0 {
                assert(mid1@.contains_key(urls));
                let items = heap@[urls]->Pointers_0;
                assert(items =~= Seq::new(view.urls.len(), |i: int| (base + i) as usize));
                assert forall|i: int| 0 <= i < n implies represents_text(
                    heap@,
                    items[i],
                    Some(#[trigger] view.urls[i]),
                ) by {
                    assert(mid1@.contains_key((base + i) as usize));
                }
                assert forall|a: usize| base <= a < base + n implies items.contains(a) by {
                    assert(items[a - base] == a);
                }
            }
            if self.credential is Some {
                assert(mid2@.contains_key(credential));
            }
            assert(raw.owned_blocks(heap@) =~= address_range(before.next(), heap.next()));
        }
        raw
    }

    /// Projects the server onto the heap. Nothing is allocated unless the
    /// whole projection can be: a text with a zero byte, a list too long for
    /// the mirror or a heap with too little room leave the heap as it was.
    pub fn project(&self, heap: &mut NativeHeap) -> (r: Result<RawRTCIceServer, ProjectionError>)
        requires
            old(heap).wf(),
        ensures
            final(heap).wf(),
            final(heap).limit() == old(heap).limit(),
            r is Ok <==> self@.valid() && self@.fits() && self@.blocks_needed() <= old(
                heap,
            ).room(),
            r == Err::<RawRTCIceServer, ProjectionError>(ProjectionError::InvalidText)
                <==> !self@.valid(),
            r is Err ==> final(heap).same_as(old(heap)),
            r is Ok ==> self@.projected(old(heap), final(heap), r.unwrap()),
    {
        if !self.is_valid() {
            return Err(ProjectionError::InvalidText);
        }
        if !self.fits() || self.count_blocks() > heap.remaining() {
            return Err(ProjectionError::AllocationFailure);
        }
        Ok(self.place(heap))
    }
}

/// The addresses that occur in `items`, as a set.
pub open spec fn address_set(items: Seq<usize>) -> Set<usize> {
    Set::new(|a: usize| exists|j: int| 0 <= j < items.len() && #[trigger] items[j] == a)
}

/// Releases every live block whose address occurs in `addresses`, and returns
/// the number of blocks released. An address that is null, not live, or
/// listed twice is released at most once.
pub fn release_all(heap: &mut NativeHeap, addresses: &Vec<usize>) -> (count: usize)
    requires
        old(heap).wf(),
    ensures
        final(heap).wf(),
        final(heap).limit() == old(heap).limit(),
        final(heap).next() == old(heap).next(),
        final(heap)@ == old(heap)@.remove_keys(address_set(addresses@)),
        count == old(heap).live() - final(heap).live(),
{
    let ghost start = heap@;
    let ghost before = *heap;
    let mut count: usize = 0;
    let mut i: usize = 0;
    while i < addresses.len()
        invariant
            heap.wf(),
            heap.limit() == before.limit(),
            heap.next() == before.next(),
            i <= addresses@.len(),
            count <= i,
            count == before.live() - heap.live(),
            heap@ =~= start.remove_keys(prefix_addresses(addresses@, i as int)),
        decreases addresses@.len() - i,
    {
        proof {
            heap.lemma_finite();
        }
        if heap.free(addresses[i]) {
            count = count + 1;
        }
        assert(prefix_addresses(addresses@, i + 1) =~= prefix_addresses(
            addresses@,
            i as int,
        ).insert(addresses@[i as int]));
        i = i + 1;
    }
    assert(prefix_addresses(addresses@, addresses@.len() as int) =~= address_set(addresses@));
    count
}

/// The addresses that a string array at `pointer` answers for: the array and
/// its items, the null address left out.
pub open spec fn strings_owned(blocks: Map<usize, BlockView>, pointer: usize) -> Set<usize> {
    Set::new(
        |a: usize|
            a != NULL && (a == pointer || (blocks.contains_key(pointer) && blocks[pointer] is Pointers
                && blocks[pointer]->Pointers_0.contains(a))),
    )
}

/// Appends to `out` every address that the string array at `pointer` answers
/// for: its items in their order, then the array. Null addresses are left out.
pub fn collect_strings(heap: &NativeHeap, pointer: usize, out: &mut Vec<usize>)
    ensures
        address_set(final(out)@) =~= address_set(old(out)@) + strings_owned(heap@, pointer),
{
    let ghost start = address_set(out@);
    match heap.pointers(pointer) {
        Some(items) => {
            let mut i: usize = 0;
            while i < items.len()
                invariant
                    i <= items@.len(),
                    address_set(out@) =~= start + Set::new(
                        |a: usize| a != NULL && prefix_addresses(items@, i as int).contains(a),
                    ),
                decreases items@.len() - i,
            {
                let ghost earlier = out@;
                if items[i] != NULL {
                    out.push(items[i]);
                    proof {
                        lemma_address_set_push(earlier, items@[i as int]);
                    }
                }
                assert(prefix_addresses(items@, i + 1) =~= prefix_addresses(
                    items@,
                    i as int,
                ).insert(items@[i as int]));
                i = i + 1;
            }
            assert forall|a: usize| items@.contains(a) <==> prefix_addresses(
                items@,
                items@.len() as int,
            ).contains(a) by {}
        },
        None => {},
    }
    let ghost listed = out@;
    if pointer != NULL {
        out.push(pointer);
        proof {
            lemma_address_set_push(listed, pointer);
        }
    }
}

/// A projected array: the address of its buffer, the number of items, and the
/// number of slots that were allocated. The buffer of a projection has no
/// spare slot, and an empty array has no buffer.
#[derive(Clone, Copy, Debug, PartialEq, Eq, Structural)]
pub struct ProjectedArray {
    pub pointer: usize,
    pub length: c_int,
    pub capacity: c_int,
}

impl ProjectedArray {
    /// The length is not negative and not above the capacity, and the buffer
    /// is null exactly if the capacity is 0.
    pub open spec fn wf(self) -> bool {
        &&& 0 <= self.length <= self.capacity
        &&& self.pointer == NULL <==> self.capacity == 0
    }

    /// Releases the items of the array, then its buffer, and returns the
    /// number of blocks released. The array is cleared to `(null, 0, 0)` right
    /// after the release, so a second release finds nothing to release.
    pub fn release(&mut self, heap: &mut NativeHeap) -> (count: usize)
        requires
            old(heap).wf(),
        ensures
            final(heap).wf(),
            final(heap).limit() == old(heap).limit(),
            final(heap).next() == old(heap).next(),
            final(heap)@ == old(heap)@.remove_keys(
                strings_owned(old(heap)@, old(self).pointer),
            ),
            count == old(heap).live() - final(heap).live(),
            final(self).pointer == NULL,
            final(self).length == 0,
            final(self).capacity == 0,
    {
        let count = release_strings(heap, self.pointer);
        self.pointer = NULL;
        self.length = 0;
        self.capacity = 0;
        count
    }
}

/// Projects a list of strings: the texts in their order, then the array of
/// their addresses, with exactly as many slots as the list has items. An empty
/// list gives `(null, 0, 0)` and takes no block. Nothing is allocated unless
/// the whole list can be.
pub fn project_strings(heap: &mut NativeHeap, list: &Vec<String>) -> (r: Result<
    ProjectedArray,
    ProjectionError,
>)
    requires
        old(heap).wf(),
    ensures
        final(heap).wf(),
        final(heap).limit() == old(heap).limit(),
        r is Ok <==> all_valid(texts(list@)) && list@.len() <= MAX_COUNT && array_blocks(
            list@.len(),
        ) <= old(heap).room(),
        r == Err::<ProjectedArray, ProjectionError>(ProjectionError::InvalidText) <==> !all_valid(
            texts(list@),
        ),
        r is Err ==> final(heap).same_as(old(heap)),
        r is Ok ==> {
            &&& r.unwrap().wf()
            &&& r.unwrap().length == list@.len()
            &&& r.unwrap().capacity == list@.len()
            &&& final(heap).next() == old(heap).next() + array_blocks(list@.len())
            &&& old(heap).grown_to(final(heap))
            &&& strings_placed(old(heap).next(), final(heap)@, texts(list@), r.unwrap().pointer)
            &&& strings_owned(final(heap)@, r.unwrap().pointer) =~= address_range(
                old(heap).next(),
                final(heap).next(),
            )
        },
{
    if !strings_valid(list) {
        return Err(ProjectionError::InvalidText);
    }
    let n = list.len();
    if n > MAX_COUNT {
        return Err(ProjectionError::AllocationFailure);
    }
    if n > 0 && n + 1 > heap.remaining() {
        return Err(ProjectionError::AllocationFailure);
    }
    let ghost base = heap.next();
    proof {
        heap.lemma_live_range();
    }
    let pointer = place_strings(heap, list);
    proof {
        heap.lemma_live_range();
        if n > 0 {
            let items = heap@[pointer]->Pointers_0;
            assert forall|a: usize| base <= a < base + n implies items.contains(a) by {
                assert(items[a - base] == a);
            }
        }
    }
    Ok(ProjectedArray { pointer, length: n as c_int, capacity: n as c_int })
}

/// Releases the items of the string array at `pointer`, then the array, and
/// returns the number of blocks released. An address that is null or no longer
/// live is passed over.
pub fn release_strings(heap: &mut NativeHeap, pointer: usize) -> (count: usize)
    requires
        old(heap).wf(),
    ensures
        final(heap).wf(),
        final(heap).limit() == old(heap).limit(),
        final(heap).next() == old(heap).next(),
        final(heap)@ == old(heap)@.remove_keys(strings_owned(old(heap)@, pointer)),
        count == old(heap).live() - final(heap).live(),
{
    let mut addresses: Vec<usize> = Vec::new();
    collect_strings(heap, pointer, &mut addresses);
    assert(address_set(Seq::<usize>::empty()) =~= Set::<usize>::empty());
    release_all(heap, &addresses)
}

impl RawRTCIceServer {
    /// Appends to `out` every address that the mirror answers for: the items of
    /// the URL array, the array, the credential and the user name. Null
    /// addresses are left out.
    pub fn collect(&self, heap: &NativeHeap, out: &mut Vec<usize>)
        ensures
            address_set(final(out)@) =~= address_set(old(out)@) + self.owned_blocks(heap@),
    {
        collect_strings(heap, self.urls, out);
        let ghost mid2 = out@;
        if self.credential != NULL {
            out.push(self.credential);
            proof {
                lemma_address_set_push(mid2, self.credential);
            }
        }
        let ghost mid3 = out@;
        if self.username != NULL {
            out.push(self.username);
            proof {
                lemma_address_set_push(mid3, self.username);
            }
        }
    }

    /// Releases every block that the mirror answers for: each URL, the array
    /// of URLs, the credential and the user name, and returns the number of
    /// blocks released. An address that is null or no longer live is passed
    /// over. The mirror's addresses are cleared right after the release, and
    /// its counts with them, so a second release finds nothing to release.
    pub fn release(&mut self, heap: &mut NativeHeap) -> (count: usize)
        requires
            old(heap).wf(),
        ensures
            final(heap).wf(),
            final(heap).limit() == old(heap).limit(),
            final(heap).next() == old(heap).next(),
            final(heap)@ == old(heap)@.remove_keys(old(self).owned_blocks(old(heap)@)),
            count == old(heap).live() - final(heap).live(),
            final(self).credential == NULL,
            final(self).username == NULL,
            final(self).urls == NULL,
            final(self).urls_size == 0,
            final(self).urls_capacity == 0,
    {
        let mut addresses: Vec<usize> = Vec::new();
        self.collect(heap, &mut addresses);
        assert(address_set(Seq::<usize>::empty()) =~= Set::<usize>::empty());
        let count = release_all(heap, &addresses);
        self.credential = NULL;
        self.username = NULL;
        self.urls = NULL;
        self.urls_size = 0;
        self.urls_capacity = 0;
        count
    }
}

/// The addresses of a list with one more item are those of the list and the
/// item.
pub proof fn lemma_address_set_push(items: Seq<usize>, address: usize)
    ensures
        address_set(items.push(address)) =~= address_set(items).insert(address),
{
    let longer = items.push(address);
    assert forall|a: usize| address_set(items).insert(address).contains(a) implies address_set(
        longer,
    ).contains(a) by {
        if a == address {
            assert(longer[items.len() as int] == a);
        } else {
            let j = choose|j: int| 0 <= j < items.len() && items[j] == a;
            assert(longer[j] == a);
        }
    }
    assert forall|a: usize| address_set(longer).contains(a) implies address_set(items).insert(
        address,
    ).contains(a) by {
        let j = choose|j: int| 0 <= j < longer.len() && longer[j] == a;
        if j < items.len() {
            assert(items[j] == a);
        }
    }
}

/// A mirror that reads as a server keeps doing so, and answers for the same
/// blocks, when the heap grows.
pub proof fn lemma_server_frame(
    view: IceServerView,
    raw: RawRTCIceServer,
    before: &NativeHeap,
    after: &NativeHeap,
)
    requires
        before.wf(),
        before.grown_to(after),
        view.represented_by(before@, raw),
    ensures
        view.represented_by(after@, raw),
        raw.owned_blocks(after@) =~= raw.owned_blocks(before@),
{
    before.lemma_live_range();
    if view.urls.len() > 0 {
        assert(before@.contains_key(raw.urls));
        let items = before@[raw.urls]->Pointers_0;
        assert forall|i: int| 0 <= i < view.urls.len() implies represents_text(
            after@,
            items[i],
            Some(#[trigger] view.urls[i]),
        ) by {
            assert(represents_text(before@, items[i], Some(view.urls[i])));
            assert(before@.contains_key(items[i]));
        }
    } else {
        assert(!before@.contains_key(NULL));
        after.lemma_live_range_of(before);
    }
}

impl RawRTCIceServer {
    /// Reads the server back from its mirror. The result is `None` if the
    /// mirror does not read as any server in this heap: a text is missing or
    /// is not UTF-8, or the counts and the array disagree.
    pub fn read(&self, heap: &NativeHeap) -> (server: Option<RTCIceServer>)
        ensures
            server is Some ==> server.unwrap()@.represented_by(heap@, *self),
            forall|v: IceServerView| #[trigger]
                v.represented_by(heap@, *self) ==> server is Some && server.unwrap()@ == v,
    {
        proof {
            assert forall|v: IceServerView| #[trigger] v.represented_by(heap@, *self) implies {
                &&& (v.credential is Some ==> string_at(heap@, self.credential) == v.credential)
                &&& (v.username is Some ==> string_at(heap@, self.username) == v.username)
                &&& forall|i: int|
                    0 <= i < v.urls.len() ==> string_at(
                        heap@,
                        heap@[self.urls]->Pointers_0[i],
                    ) == Some(#[trigger] v.urls[i])
            } by {
                if v.credential is Some {
                    lemma_text_round_trip(heap@, self.credential, v.credential.unwrap());
                }
                if v.username is Some {
                    lemma_text_round_trip(heap@, self.username, v.username.unwrap());
                }
                assert forall|i: int| 0 <= i < v.urls.len() implies string_at(
                    heap@,
                    heap@[self.urls]->Pointers_0[i],
                ) == Some(#[trigger] v.urls[i]) by {
                    lemma_text_round_trip(heap@, heap@[self.urls]->Pointers_0[i], v.urls[i]);
                }
            }
            if self.credential != NULL && string_at(heap@, self.credential) is Some {
                lemma_string_at_block(heap@, self.credential);
            }
            if self.username != NULL && string_at(heap@, self.username) is Some {
                lemma_string_at_block(heap@, self.username);
            }
        }
        let credential = match read_opt_string(heap, self.credential) {
            Some(text) => text,
            None => {
                return None;
            },
        };
        let username = match read_opt_string(heap, self.username) {
            Some(text) => text,
            None => {
                return None;
            },
        };
        if self.urls_size < 0 || self.urls_capacity != self.urls_size {
            return None;
        }
        let n: usize = self.urls_size as usize;
        if self.urls == NULL {
            if n != 0 {
                return None;
            }
            let server = RTCIceServer { credential, username, urls: None };
            assert forall|v: IceServerView| #[trigger]
                v.represented_by(heap@, *self) implies server@ == v by {
                assert(server@.credential == v.credential);
                assert(server@.username == v.username);
                assert(server@.urls =~= v.urls);
            }
            return Some(server);
        }
        let items = match heap.pointers(self.urls) {
            Some(items) => items,
            None => {
                return None;
            },
        };
        if n == 0 || items.len() != n {
            return None;
        }
        let mut list: Vec<String> = Vec::new();
        let mut i: usize = 0;
        while i < n
            invariant
                n == items@.len(),
                n == self.urls_size,
                i <= n,
                list@.len() == i,
                heap@.contains_key(self.urls),
                heap@[self.urls] == BlockView::Pointers(items@),
                strings_read(heap@, items@, texts(list@), i as int),
                forall|v: IceServerView| #[trigger]
                    v.represented_by(heap@, *self) ==> forall|k: int|
                        0 <= k < v.urls.len() ==> string_at(heap@, items@[k]) == Some(
                            #[trigger] v.urls[k],
                        ),
            decreases n - i,
        {
            if items[i] == NULL {
                assert forall|v: IceServerView| #[trigger]
                    v.represented_by(heap@, *self) implies false by {
                    assert(represents_text(heap@, items@[i as int], Some(v.urls[i as int])));
                }
                return None;
            }
            let url = match read_string(heap, items[i]) {
                Some(url) => url,
                None => {
                    assert forall|v: IceServerView| #[trigger]
                        v.represented_by(heap@, *self) implies false by {
                        assert(string_at(heap@, items@[i as int]) == Some(v.urls[i as int]));
                    }
                    return None;
                },
            };
            let ghost earlier = list@;
            list.push(url);
            proof {
                let now = texts(list@);
                let past = texts(earlier);
                assert forall|j: int| 0 <= j < i + 1 implies string_at(heap@, #[trigger] items@[j])
                    == Some(now[j]) by {
                    if j < i {
                        assert(now[j] == past[j]);
                    }
                }
            }
            i = i + 1;
        }
        let server = RTCIceServer { credential, username, urls: Some(list) };
        proof {
            assert forall|j: int| 0 <= j < n implies represents_text(
                heap@,
                items@[j],
                Some(#[trigger] server@.urls[j]),
            ) by {
                assert(string_at(heap@, items@[j]) == Some(texts(list@)[j]));
                lemma_string_at_block(heap@, items@[j]);
            }
            assert forall|v: IceServerView| #[trigger]
                v.represented_by(heap@, *self) implies server@ == v by {
                assert forall|k: int| 0 <= k < v.urls.len() implies server@.urls[k]
                    == v.urls[k] by {
                    assert(string_at(heap@, items@[k]) == Some(v.urls[k]));
                    assert(string_at(heap@, items@[k]) == Some(texts(list@)[k]));
                }
                assert(server@.credential == v.credential);
                assert(server@.username == v.username);
                assert(server@.urls =~= v.urls);
            }
        }
        Some(server)
    }
}

/// Round trip: a mirror reads as at most one server in a heap, so what is read
/// back from the projection of a server is that server, field for field.
pub proof fn lemma_round_trip(
    blocks: Map<usize, BlockView>,
    raw: RawRTCIceServer,
    source: IceServerView,
    read_back: IceServerView,
)
    requires
        source.represented_by(blocks, raw),
        read_back.represented_by(blocks, raw),
    ensures
        read_back == source,
{
    if source.credential is Some {
        lemma_text_round_trip(blocks, raw.credential, source.credential.unwrap());
        lemma_text_round_trip(blocks, raw.credential, read_back.credential.unwrap());
    }
    if source.username is Some {
        lemma_text_round_trip(blocks, raw.username, source.username.unwrap());
        lemma_text_round_trip(blocks, raw.username, read_back.username.unwrap());
    }
    assert forall|i: int| 0 <= i < source.urls.len() implies source.urls[i]
        == read_back.urls[i] by {
        let item = blocks[raw.urls]->Pointers_0[i];
        assert(represents_text(blocks, item, Some(source.urls[i])));
        assert(represents_text(blocks, item, Some(read_back.urls[i])));
        lemma_text_round_trip(blocks, item, source.urls[i]);
        lemma_text_round_trip(blocks, item, read_back.urls[i]);
    }
    assert(source.urls =~= read_back.urls);
}

/// A server without URLs projects to the null array with size and capacity 0,
/// wherever the projection starts.
pub proof fn lemma_empty_urls_mirror(view: IceServerView, base: nat)
    requires
        view.urls.len() == 0,
    ensures
        view.mirror(base).urls == NULL,
        view.mirror(base).urls_size == 0,
        view.mirror(base).urls_capacity == 0,
{
}

/// A server with nothing set projects to the mirror whose every field is null
/// or 0, and takes no block.
pub proof fn lemma_absent_mirror(view: IceServerView, base: nat)
    requires
        view.credential is None,
        view.username is None,
        view.urls.len() == 0,
    ensures
        view.mirror(base) == (RawRTCIceServer {
            credential: NULL,
            urls: NULL,
            urls_size: 0,
            urls_capacity: 0,
            username: NULL,
        }),
        view.blocks_needed() == 0,
{
}

/// Releasing a mirror that was just projected gives back the blocks that the
/// heap held before the projection, and no other: every block that the
/// projection allocated is released, and only those. Their number is the
/// number of blocks that the server needs, so that is what `release` counts.
pub proof fn lemma_release_undoes_projection(
    view: IceServerView,
    before: &NativeHeap,
    after: &NativeHeap,
    raw: RawRTCIceServer,
)
    requires
        before.wf(),
        after.wf(),
        view.projected(before, after, raw),
    ensures
        after@.remove_keys(raw.owned_blocks(after@)) == before@,
        after.live() - before.live() == view.blocks_needed(),
{
    before.lemma_live_range();
    before.lemma_grown_live(after);
    assert(after@.remove_keys(raw.owned_blocks(after@)) =~= before@);
}

/// Whether every string of the list can cross the bridge.
pub fn strings_valid(list: &Vec<String>) -> (ok: bool)
    ensures
        ok == all_valid(texts(list@)),
{
    let mut i: usize = 0;
    while i < list.len()
        invariant
            i <= list@.len(),
            forall|j: int| 0 <= j < i ==> is_valid_text(#[trigger] texts(list@)[j]),
        decreases list@.len() - i,
    {
        if has_interior_nul(list[i].as_str()) {
            assert(!is_valid_text(texts(list@)[i as int]));
            return false;
        }
        i = i + 1;
    }
    true
}

/// Whether an optional string can cross the bridge.
pub fn opt_string_valid(text: &Option<String>) -> (ok: bool)
    ensures
        ok == opt_valid(opt_text(*text)),
{
    match text {
        Some(s) => !has_interior_nul(s.as_str()),
        None => true,
    }
}

/// Places an optional text: nothing and the null address for an absent one.
pub fn place_opt_text(heap: &mut NativeHeap, text: &Option<String>) -> (address: usize)
    requires
        old(heap).wf(),
        opt_valid(opt_text(*text)),
        opt_blocks(opt_text(*text)) <= old(heap).room(),
    ensures
        final(heap).wf(),
        final(heap).limit() == old(heap).limit(),
        final(heap).next() == old(heap).next() + opt_blocks(opt_text(*text)),
        old(heap).grown_to(final(heap)),
        represents_text(final(heap)@, address, opt_text(*text)),
        (*text) is Some ==> address == old(heap).next(),
{
    match text {
        Some(s) => place_text(heap, s.as_str()),
        None => NULL,
    }
}

/// Places the strings of `list` in their order, then the array of their
/// addresses, and returns the array's address. The array has exactly as many
/// slots as the list has items. An empty list takes no block and gives the
/// null address.
pub fn place_strings(heap: &mut NativeHeap, list: &Vec<String>) -> (array: usize)
    requires
        old(heap).wf(),
        all_valid(texts(list@)),
        array_blocks(list@.len()) <= old(heap).room(),
    ensures
        final(heap).wf(),
        final(heap).limit() == old(heap).limit(),
        final(heap).next() == old(heap).next() + array_blocks(list@.len()),
        old(heap).grown_to(final(heap)),
        strings_placed(old(heap).next(), final(heap)@, texts(list@), array),
{
    let n = list.len();
    if n == 0 {
        return NULL;
    }
    let ghost before = *heap;
    let ghost base = heap.next();
    let ghost all = texts(list@);
    let mut items: Vec<usize> = Vec::new();
    let mut i: usize = 0;
    while i < n
        invariant
            heap.wf(),
            heap.limit() == before.limit(),
            before.wf(),
            base == before.next(),
            n == list@.len(),
            all == texts(list@),
            all_valid(all),
            n + 1 <= before.room(),
            i <= n,
            heap.next() == base + i,
            before.grown_to(heap),
            items@ =~= Seq::new(i as nat, |j: int| (base + j) as usize),
            forall|j: int|
                0 <= j < i ==> heap@.contains_key((base + j) as usize) && heap@[(base
                    + j) as usize] == text_block(#[trigger] all[j]),
        decreases n - i,
    {
        let ghost mid = *heap;
        proof {
            mid.lemma_live_range();
            assert(is_valid_text(all[i as int]));
        }
        let address = place_text(heap, list[i].as_str());
        items.push(address);
        proof {
            before.lemma_grown_trans(&mid, heap);
            assert forall|j: int| 0 <= j < i + 1 implies heap@.contains_key((base + j) as usize)
                && heap@[(base + j) as usize] == text_block(#[trigger] all[j]) by {
                if j < i {
                    assert(mid@.contains_key((base + j) as usize));
                }
            }
        }
        i = i + 1;
    }
    let ghost mid = *heap;
    proof {
        mid.lemma_live_range();
    }
    let array = heap.place(Block::Pointers(items));
    proof {
        before.lemma_grown_trans(&mid, heap);
        assert forall|j: int| 0 <= j < n implies heap@.contains_key((base + j) as usize)
            && heap@[(base + j) as usize] == text_block(#[trigger] all[j]) by {
            assert(mid@.contains_key((base + j) as usize));
        }
    }
    array
}

} // verus!
