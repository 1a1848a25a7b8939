//! Headers: an owned (name, value) pair of byte strings, and the ordered,
//! bounded header collection both message types carry. Lookup by name is
//! case-insensitive; insertion order is preserved; inserting beyond the
//! fixed capacity fails, it never grows.

use crate::error::HttpError;
use crate::text::copy_span;
use vstd::prelude::*;

verus! {

/// The fixed capacity of a header collection.
pub const MAX_HEADERS: usize = 16;

/// One HTTP header: an owned (name, value) pair of byte strings.
#[derive(Debug, Clone, PartialEq, Eq)]
pub struct HttpHeader {
    /// The header name (the part before the colon on the wire).
    pub name: Vec<u8>,
    /// The header value (the part after the colon, trimmed).
    pub value: Vec<u8>,
}

impl View for HttpHeader {
    type V = (Seq<u8>, Seq<u8>);

    open spec fn view(&self) -> (Seq<u8>, Seq<u8>) {
        (self.name@, self.value@)
    }
}

impl HttpHeader {
    /// Builds a header from borrowed spans; construction never fails.
    pub fn new(name: &[u8], value: &[u8]) -> (r: HttpHeader)
        ensures
            r@ == (name@, value@),
    {
        let r = HttpHeader {
            name: copy_span(name, 0, name.len()),
            value: copy_span(value, 0, value.len()),
        };
        proof {
            assert(name@.subrange(0, name@.len() as int) =~= name@);
            assert(value@.subrange(0, value@.len() as int) =~= value@);
        }
        r
    }
}

#[verifier::external_type_specification]
#[verifier::external_body]
#[verifier::reject_recursive_types(T)]
pub struct ExHeaplessVec<T, const N: usize>(heapless::Vec<T, N>);

/// The (name, value) pairs a bounded heapless vector of headers holds, in order.
pub uninterp spec fn hv_entries(v: heapless::Vec<HttpHeader, 16>) -> Seq<(Seq<u8>, Seq<u8>)>;

/// Relies on heapless::Vec::new: a freshly constructed vector is empty.
#[verifier::external_body]
fn hv_new() -> (r: heapless::Vec<HttpHeader, 16>)
    ensures
        hv_entries(r) == Seq::<(Seq<u8>, Seq<u8>)>::empty(),
{
    heapless::Vec::new()
}

/// Relies on heapless::Vec::push: appends while below the capacity 16, and
/// otherwise returns the item back with the vector unchanged.
#[verifier::external_body]
fn hv_push(v: &mut heapless::Vec<HttpHeader, 16>, h: HttpHeader) -> (r: Result<(), HttpHeader>)
    ensures
        hv_entries(*old(v)).len() < 16 ==> r is Ok && hv_entries(*final(v)) == hv_entries(
            *old(v),
        ).push(h@),
        hv_entries(*old(v)).len() >= 16 ==> r is Err && hv_entries(*final(v)) == hv_entries(
            *old(v),
        ) && r->Err_0@ == h@,
{
    v.push(h)
}

/// Relies on heapless::Vec::len: the number of items held, which the type
/// keeps at or below its capacity 16.
#[verifier::external_body]
fn hv_len(v: &heapless::Vec<HttpHeader, 16>) -> (r: usize)
    ensures
        r == hv_entries(*v).len(),
        r <= 16,
{
    v.len()
}

/// Relies on heapless::Vec's Deref to a slice of its first len items, and on
/// slice indexing within bounds.
#[verifier::external_body]
fn hv_get(v: &heapless::Vec<HttpHeader, 16>, i: usize) -> (r: &HttpHeader)
    requires
        i < hv_entries(*v).len(),
    ensures
        r@ == hv_entries(*v)[i as int],
{
    &v[i]
}

/// The given byte with an ASCII upper-case letter folded to lower case.
pub open spec fn lower_byte(b: u8) -> u8 {
    if 'A' as u8 <= b <= 'Z' as u8 {
        (b + 32) as u8
    } else {
        b
    }
}

/// A byte span with every ASCII upper-case letter folded to lower case.
pub open spec fn lower_bytes(s: Seq<u8>) -> Seq<u8> {
    s.map_values(|b: u8| lower_byte(b))
}

/// Whether a header's name equals the queried name up to ASCII case.
pub open spec fn header_matches(h: (Seq<u8>, Seq<u8>), name: Seq<u8>) -> bool {
    lower_bytes(h.0) == lower_bytes(name)
}

/// The value of the first header whose name matches, up to ASCII case.
pub open spec fn find_header(hs: Seq<(Seq<u8>, Seq<u8>)>, name: Seq<u8>) -> Option<Seq<u8>>
    decreases hs.len(),
{
    if hs.len() == 0 {
        None
    } else if header_matches(hs[0], name) {
        Some(hs[0].1)
    } else {
        find_header(hs.drop_first(), name)
    }
}

/// ASCII case folding of one byte.
fn lower_u8(b: u8) -> (r: u8)
    ensures
        r == lower_byte(b),
{
    if 65 <= b && b <= 90 {
        b + 32
    } else {
        b
    }
}

/// Whether two byte spans are equal up to ASCII case.
pub fn eq_ignore_ascii_case(a: &[u8], b: &[u8]) -> (r: bool)
    ensures
        r == (lower_bytes(a@) == lower_bytes(b@)),
{
    if a.len() != b.len() {
        proof {
            assert(lower_bytes(a@).len() == a@.len());
            assert(lower_bytes(b@).len() == b@.len());
        }
        return false;
    }
    let mut i: usize = 0;
    while i < a.len()
        invariant
            i <= a@.len(),
            a@.len() == b@.len(),
            forall|j: int| 0 <= j < i ==> lower_byte(a@[j]) == lower_byte(b@[j]),
        decreases a@.len() - i,
    {
        if lower_u8(a[i]) != lower_u8(b[i]) {
            proof {
                assert(lower_bytes(a@)[i as int] != lower_bytes(b@)[i as int]);
            }
            return false;
        }
        i += 1;
    }
    proof {
        assert(lower_bytes(a@) =~= lower_bytes(b@));
    }
    true
}

/// An ordered, bounded-capacity collection of headers, backed by a
/// fixed-capacity heapless vector of capacity 16.
pub struct HeaderList {
    entries: heapless::Vec<HttpHeader, 16>,
}

impl View for HeaderList {
    type V = Seq<(Seq<u8>, Seq<u8>)>;

    closed spec fn view(&self) -> Seq<(Seq<u8>, Seq<u8>)> {
        hv_entries(self.entries)
    }
}

impl HeaderList {
    /// An empty collection.
    pub fn new() -> (r: HeaderList)
        ensures
            r@ == Seq::<(Seq<u8>, Seq<u8>)>::empty(),
    {
        HeaderList { entries: hv_new() }
    }

    /// The number of headers held, never above the capacity.
    pub fn len(&self) -> (r: usize)
        ensures
            r == self@.len(),
            r <= MAX_HEADERS,
    {
        hv_len(&self.entries)
    }

    /// Appends a header, preserving order; at capacity the insertion fails
    /// and the collection is left exactly as it was.
    pub fn push(&mut self, h: HttpHeader) -> (r: Result<(), HttpError>)
        ensures
            old(self)@.len() < MAX_HEADERS ==> r == Ok::<(), HttpError>(()) && final(self)@ == old(
                self,
            )@.push(h@),
            old(self)@.len() >= MAX_HEADERS ==> r == Err::<(), HttpError>(
                HttpError::TooManyHeaders,
            ) && final(self)@ == old(self)@,
    {
        match hv_push(&mut self.entries, h) {
            Ok(()) => Ok(()),
            Err(_) => Err(HttpError::TooManyHeaders),
        }
    }

    /// The header at the given position, in insertion order.
    pub fn get(&self, i: usize) -> (r: Option<&HttpHeader>)
        ensures
            i < self@.len() ==> r is Some && r->0@ == self@[i as int],
            i >= self@.len() ==> r is None,
    {
        if i < hv_len(&self.entries) {
            Some(hv_get(&self.entries, i))
        } else {
            None
        }
    }

    /// The value of the first header whose name matches, up to ASCII case.
    pub fn find(&self, name: &[u8]) -> (r: Option<&Vec<u8>>)
        ensures
            r is Some <==> find_header(self@, name@) is Some,
            r is Some ==> r->0@ == find_header(self@, name@)->0,
    {
        let n = hv_len(&self.entries);
        let mut i: usize = 0;
        while i < n
            invariant
                i <= n,
                n == self@.len(),
                forall|j: int| 0 <= j < i ==> !header_matches(self@[j], name@),
            decreases n - i,
        {
            let h = hv_get(&self.entries, i);
            if eq_ignore_ascii_case(h.name.as_slice(), name) {
                proof {
                    lemma_find_header_at(self@, name@, i as int);
                }
                return Some(&h.value);
            }
            i += 1;
        }
        proof {
            lemma_find_header_none(self@, name@);
        }
        None
    }
}

/// If the first match is at position `i`, the lookup returns its value.
proof fn lemma_find_header_at(hs: Seq<(Seq<u8>, Seq<u8>)>, name: Seq<u8>, i: int)
    requires
        0 <= i < hs.len(),
        forall|j: int| 0 <= j < i ==> !header_matches(hs[j], name),
        header_matches(hs[i], name),
    ensures
        find_header(hs, name) == Some(hs[i].1),
    decreases i,
{
    if i > 0 {
        lemma_find_header_at(hs.drop_first(), name, i - 1);
    }
}

/// If no header matches, the lookup returns nothing.
proof fn lemma_find_header_none(hs: Seq<(Seq<u8>, Seq<u8>)>, name: Seq<u8>)
    requires
        forall|j: int| 0 <= j < hs.len() ==> !header_matches(hs[j], name),
    ensures
        find_header(hs, name) is None,
    decreases hs.len(),
{
    if hs.len() > 0 {
        lemma_find_header_none(hs.drop_first(), name);
    }
}

/// Header lookup is case-insensitive: queries whose names agree up to ASCII
/// case give the same answer on every collection.
pub proof fn lemma_find_header_case_insensitive(
    hs: Seq<(Seq<u8>, Seq<u8>)>,
    q1: Seq<u8>,
    q2: Seq<u8>,
)
    requires
        lower_bytes(q1) == lower_bytes(q2),
    ensures
        find_header(hs, q1) == find_header(hs, q2),
    decreases hs.len(),
{
    if hs.len() > 0 {
        lemma_find_header_case_insensitive(hs.drop_first(), q1, q2);
    }
}

/// A header inserted under a name is found by any query equal to that name
/// up to ASCII case, when no earlier header already matches the query.
pub proof fn lemma_find_header_after_insert(
    hs: Seq<(Seq<u8>, Seq<u8>)>,
    name: Seq<u8>,
    value: Seq<u8>,
    query: Seq<u8>,
)
    requires
        find_header(hs, query) is None,
        lower_bytes(name) == lower_bytes(query),
    ensures
        find_header(hs.push((name, value)), query) == Some(value),
    decreases hs.len(),
{
    if hs.len() == 0 {
        assert(hs.push((name, value))[0] == (name, value));
    } else {
        assert(hs.push((name, value)).drop_first() =~= hs.drop_first().push((name, value)));
        lemma_find_header_after_insert(hs.drop_first(), name, value, query);
    }
}

} // verus!
