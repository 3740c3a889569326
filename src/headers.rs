//! The ordered, duplicate-aware header table.
//!
//! Entries keep the name exactly as it was seen, for serialization, beside a
//! lower-cased lookup key. Entries are kept in insertion order, which is also
//! the order in which they are written back out.

use vstd::prelude::*;
use vstd::utf8::encode_utf8;

use crate::bytes::{push_all, to_vec};

verus! {

/// The size of the buffer that one read from a connection fills.
pub const DEFAULT_INTO_BUFFER_CAPACITY: usize = 65536;

/// `httparse::Header`, the name and value of one parsed header; its two
/// public fields are read as they are.
#[verifier::external_type_specification]
pub struct ExHeader<'a>(httparse::Header<'a>);

/// What `str::to_lowercase` gives for a string; it depends on the characters alone.
pub uninterp spec fn lower_of(s: Seq<char>) -> Seq<char>;

/// Relies on `str::to_lowercase`: the lower-cased form of `s`.
#[verifier::external_body]
fn lowercase(s: &str) -> (r: String)
    ensures
        r@ == lower_of(s@),
{
    s.to_lowercase()
}

/// One stored header: the name as it was seen, its lookup key, its value, and
/// its position among all the entries of its table.
pub struct OctopusHeader {
    original_name: String,
    key: String,
    value: Vec<u8>,
    order: usize,
}

impl OctopusHeader {
    /// The lookup key is the lower-cased name.
    #[verifier::type_invariant]
    spec fn wf(&self) -> bool {
        self.key@ == lower_of(self.original_name@)
    }

    pub closed spec fn name_view(&self) -> Seq<char> {
        self.original_name@
    }

    pub closed spec fn key_view(&self) -> Seq<char> {
        self.key@
    }

    pub closed spec fn value_view(&self) -> Seq<u8> {
        self.value@
    }

    pub closed spec fn order_view(&self) -> usize {
        self.order
    }

    pub fn new(original: String, contents: &Vec<u8>, order: usize) -> (r: OctopusHeader)
        ensures
            r.name_view() == original@,
            r.key_view() == lower_of(original@),
            r.value_view() == contents@,
            r.order_view() == order,
    {
        let key = lowercase(original.as_str());
        OctopusHeader { original_name: original, key, value: to_vec(contents.as_slice()), order }
    }

    pub fn value(&self) -> (r: &Vec<u8>)
        ensures
            r@ == self.value_view(),
    {
        &self.value
    }

    pub fn original_name(&self) -> (r: String)
        ensures
            r@ == self.name_view(),
    {
        self.original_name.clone()
    }

    pub fn order(&self) -> (r: usize)
        ensures
            r == self.order_view(),
    {
        self.order
    }
}

/// A header block as a sequence of (name, value) pairs, in insertion order.
pub type HeaderList = Seq<(Seq<char>, Seq<u8>)>;

/// How many entries of `s` have the lookup key `key`.
pub open spec fn key_count(s: HeaderList, key: Seq<char>) -> nat
    decreases s.len(),
{
    if s.len() == 0 {
        0
    } else {
        key_count(s.drop_last(), key) + if lower_of(s.last().0) == key {
            1nat
        } else {
            0nat
        }
    }
}

/// The value of the first entry of `s` whose lookup key is `key`.
pub open spec fn first_value(s: HeaderList, key: Seq<char>) -> Option<Seq<u8>>
    decreases s.len(),
{
    if s.len() == 0 {
        None
    } else {
        match first_value(s.drop_last(), key) {
            Some(v) => Some(v),
            None => if lower_of(s.last().0) == key {
                Some(s.last().1)
            } else {
                None
            },
        }
    }
}

/// A found value stays the first one however many entries follow.
pub proof fn lemma_first_value_extends(s: HeaderList, key: Seq<char>, i: int)
    requires
        0 <= i <= s.len(),
        first_value(s.subrange(0, i), key) is Some,
    ensures
        first_value(s, key) == first_value(s.subrange(0, i), key),
    decreases s.len() - i,
{
    if i < s.len() {
        let t = s.subrange(0, i + 1);
        assert(t.drop_last() =~= s.subrange(0, i));
        lemma_first_value_extends(s, key, i + 1);
    } else {
        assert(s.subrange(0, i) =~= s);
    }
}

/// Why a header block or one of its values is refused.
#[derive(Debug, Clone, Copy, PartialEq, Eq, Structural)]
pub enum HeaderError {
    /// More than one `Host` entry, or more than one `Content-Length` entry.
    Conflicting,
    /// A `Content-Length` value that is not a plain decimal number fitting in `usize`.
    MalformedLength,
}

/// The (name, value) pairs of a raw header block, in order.
pub open spec fn raw_list(raw: Seq<httparse::Header>) -> HeaderList {
    Seq::new(raw.len(), |i: int| (raw[i].name@, raw[i].value@))
}

/// The bytes held by an optional vector.
pub open spec fn opt_bytes(r: Option<Vec<u8>>) -> Option<Seq<u8>> {
    match r {
        Some(v) => Some(v@),
        None => None,
    }
}

/// A table may hold at most one `Host` and at most one `Content-Length` entry.
pub open spec fn headers_valid(s: HeaderList) -> bool {
    key_count(s, "host"@) <= 1 && key_count(s, "content-length"@) <= 1
}

pub open spec fn is_digit(b: u8) -> bool {
    48 <= b <= 57
}

/// The number that a string of decimal digits denotes.
pub open spec fn decimal_value(s: Seq<u8>) -> nat
    decreases s.len(),
{
    if s.len() == 0 {
        0
    } else {
        decimal_value(s.drop_last()) * 10 + (s.last() - 48) as nat
    }
}

/// A non-empty run of decimal digits whose value fits in `usize`.
pub open spec fn is_length(s: Seq<u8>) -> bool {
    &&& s.len() > 0
    &&& forall|i: int| 0 <= i < s.len() ==> is_digit(#[trigger] s[i])
    &&& decimal_value(s) <= usize::MAX
}

/// What `content_length` gives for a header list: two or more
/// `Content-Length` entries are ambiguous and refused, whatever their values.
pub open spec fn content_length_of(s: HeaderList) -> Result<Option<usize>, HeaderError> {
    if key_count(s, "content-length"@) > 1 {
        Err(HeaderError::Conflicting)
    } else {
        match first_value(s, "content-length"@) {
        None => Ok(None),
        Some(v) => if is_length(v) {
            Ok(Some(decimal_value(v) as usize))
        } else {
            Err(HeaderError::MalformedLength)
        },
        }
    }
}

/// One serialized row: `Name: value` followed by CR LF.
pub open spec fn header_row(name: Seq<char>, value: Seq<u8>) -> Seq<u8> {
    // ':' ' ' ... '\r' '\n'
    encode_utf8(name) + seq![58u8, 32u8] + value + seq![13u8, 10u8]
}

/// The rows of all entries, in order.
pub open spec fn header_rows(s: HeaderList) -> Seq<u8>
    decreases s.len(),
{
    if s.len() == 0 {
        Seq::empty()
    } else {
        header_rows(s.drop_last()) + header_row(s.last().0, s.last().1)
    }
}

/// The wire form of a header block: every row in order, then an empty line.
pub open spec fn header_block(s: HeaderList) -> Seq<u8> {
    header_rows(s) + seq![13u8, 10u8]
}

proof fn lemma_decimal_grows(s: Seq<u8>, i: int, j: int)
    requires
        0 <= i <= j <= s.len(),
        forall|k: int| 0 <= k < s.len() ==> is_digit(#[trigger] s[k]),
    ensures
        decimal_value(s.subrange(0, i)) <= decimal_value(s.subrange(0, j)),
    decreases j - i,
{
    if i < j {
        lemma_decimal_grows(s, i, j - 1);
        assert(s.subrange(0, j).drop_last() =~= s.subrange(0, j - 1));
    }
}

/// Reads a `Content-Length` value: a non-empty run of decimal digits that fits in `usize`.
pub fn parse_length(v: &[u8]) -> (r: Option<usize>)
    ensures
        r == (if is_length(v@) {
            Some(decimal_value(v@) as usize)
        } else {
            None::<usize>
        }),
{
    if v.len() == 0 {
        return None;
    }
    let mut acc: usize = 0;
    let mut i: usize = 0;
    while i < v.len()
        invariant
            0 <= i <= v@.len(),
            forall|k: int| 0 <= k < i ==> is_digit(#[trigger] v@[k]),
            acc == decimal_value(v@.subrange(0, i as int)),
        decreases v@.len() - i,
    {
        let b: u8 = v[i];
        if b < 48 || b > 57 {
            return None;
        }
        assert(v@.subrange(0, i + 1).drop_last() =~= v@.subrange(0, i as int));
        let d: usize = (b - 48) as usize;
        match acc.checked_mul(10) {
            Some(m) => match m.checked_add(d) {
                Some(n) => {
                    acc = n;
                },
                None => {
                    proof {
                        lemma_all_digits_or_none(v@, i as int);
                    }
                    return None;
                },
            },
            None => {
                proof {
                    lemma_all_digits_or_none(v@, i as int);
                }
                return None;
            },
        }
        i = i + 1;
    }
    assert(v@.subrange(0, i as int) =~= v@);
    Some(acc)
}

/// Once a prefix ending in digit `i` overflows, the whole value is not a length.
proof fn lemma_all_digits_or_none(s: Seq<u8>, i: int)
    requires
        0 <= i < s.len(),
        decimal_value(s.subrange(0, i + 1)) > usize::MAX,
    ensures
        !is_length(s),
{
    if forall|k: int| 0 <= k < s.len() ==> is_digit(#[trigger] s[k]) {
        lemma_decimal_grows(s, i + 1, s.len() as int);
        assert(s.subrange(0, s.len() as int) =~= s);
    }
}

/// An ordered header table.
pub struct Headers {
    entries: Vec<OctopusHeader>,
}

impl View for Headers {
    type V = HeaderList;

    closed spec fn view(&self) -> HeaderList {
        Seq::new(
            self.entries@.len(),
            |i: int| (self.entries@[i].original_name@, self.entries@[i].value@),
        )
    }
}

impl Headers {
    /// Every entry's order is its position.
    #[verifier::type_invariant]
    spec fn wf(&self) -> bool {
        forall|i: int| 0 <= i < self.entries@.len() ==> #[trigger] self.entries@[i].order == i
    }

    pub fn new() -> (r: Headers)
        ensures
            r@ == Seq::<(Seq<char>, Seq<u8>)>::empty(),
    {
        Headers { entries: Vec::new() }
    }

    /// Appends an entry; it always succeeds.
    pub fn insert(&mut self, name: &str, value: &Vec<u8>)
        ensures
            final(self)@ == old(self)@.push((name@, value@)),
    {
        proof {
            use_type_invariant(&*self);
        }
        let order: usize = self.entries.len();
        let entry = OctopusHeader::new(name.to_owned(), value, order);
        let mut entries: Vec<OctopusHeader> = Vec::new();
        std::mem::swap(&mut entries, &mut self.entries);
        entries.push(entry);
        self.entries = entries;
        assert(self@ =~= old(self)@.push((name@, value@)));
    }
}


impl Headers {
    /// The value of the first entry whose lookup key is exactly `key`.
    pub fn get_folded(&self, key: &str) -> (r: Option<Vec<u8>>)
        ensures
            opt_bytes(r) == first_value(self@, key@),
    {
        let wanted: String = key.to_owned();
        assert(wanted@ == key@);
        let mut i: usize = 0;
        while i < self.entries.len()
            invariant
                i <= self@.len(),
                self@.len() == self.entries@.len(),
                wanted@ == key@,
                first_value(self@.subrange(0, i as int), key@) is None,
            decreases self@.len() - i,
        {
            let e = &self.entries[i];
            proof {
                use_type_invariant(e);
                assert(self@.subrange(0, i + 1).drop_last() =~= self@.subrange(0, i as int));
                assert(self@[i as int].0 == e.original_name@);
                assert(e.key@ == lower_of(e.original_name@));
            }
            if e.key == wanted {
                let v = to_vec(e.value.as_slice());
                proof {
                    let t = self@.subrange(0, i + 1);
                    assert(t.last() == self@[i as int]);
                    assert(v@ == self@[i as int].1);
                    assert(first_value(t, key@) == Some(self@[i as int].1));
                    lemma_first_value_extends(self@, key@, i + 1);
                }
                return Some(v);
            }
            i = i + 1;
        }
        assert(self@.subrange(0, i as int) =~= self@);
        None
    }

    /// The value of the first entry named `name`, compared without regard to case.
    pub fn get(&self, name: &str) -> (r: Option<Vec<u8>>)
        ensures
            opt_bytes(r) == first_value(self@, lower_of(name@)),
    {
        let key = lowercase(name);
        self.get_folded(key.as_str())
    }

    /// How many entries have the lookup key `key`.
    fn count_folded(&self, key: &str) -> (r: usize)
        ensures
            r == key_count(self@, key@),
    {
        let key = key.to_owned();
        let mut n: usize = 0;
        let mut i: usize = 0;
        while i < self.entries.len()
            invariant
                i <= self@.len(),
                self@.len() == self.entries@.len(),
                n == key_count(self@.subrange(0, i as int), key@),
                n <= i,
            decreases self@.len() - i,
        {
            let e = &self.entries[i];
            proof {
                use_type_invariant(e);
                assert(self@.subrange(0, i + 1).drop_last() =~= self@.subrange(0, i as int));
                assert(self@[i as int].0 == e.original_name@);
                assert(e.key@ == lower_of(e.original_name@));
            }
            if e.key == key {
                n = n + 1;
            }
            i = i + 1;
        }
        assert(self@.subrange(0, i as int) =~= self@);
        n
    }

    /// At most one `Host` entry and at most one `Content-Length` entry.
    pub fn validate(&self) -> (r: bool)
        ensures
            r == headers_valid(self@),
    {
        let hosts: usize = self.count_folded("host");
        let lengths: usize = self.count_folded("content-length");
        hosts <= 1 && lengths <= 1
    }

    /// The declared body length: absent without a `Content-Length` entry,
    /// `Conflicting` when there is more than one, `MalformedLength` when the
    /// sole one is not a plain decimal number.
    pub fn content_length(&self) -> (r: Result<Option<usize>, HeaderError>)
        ensures
            r == content_length_of(self@),
    {
        if self.count_folded("content-length") > 1 {
            return Err(HeaderError::Conflicting);
        }
        match self.get_folded("content-length") {
            None => Ok(None),
            Some(v) => match parse_length(v.as_slice()) {
                Some(n) => Ok(Some(n)),
                None => Err(HeaderError::MalformedLength),
            },
        }
    }

    /// What building a table from a header list gives.
    pub open spec fn from_raw_spec(s: HeaderList) -> Result<HeaderList, HeaderError> {
        if headers_valid(s) {
            Ok(s)
        } else {
            Err(HeaderError::Conflicting)
        }
    }

    /// Builds a table from a parsed header block, keeping its order, and
    /// refuses it when it holds conflicting `Host` or `Content-Length` entries.
    pub fn from_raw(raw: &[httparse::Header]) -> (r: Result<Headers, HeaderError>)
        ensures
            match Headers::from_raw_spec(raw_list(raw@)) {
                Ok(s) => r matches Ok(h) && h@ == s,
                Err(e) => r == Err::<Headers, HeaderError>(e),
            },
    {
        let mut headers = Headers::new();
        let mut i: usize = 0;
        while i < raw.len()
            invariant
                i <= raw@.len(),
                headers@ == raw_list(raw@).subrange(0, i as int),
            decreases raw@.len() - i,
        {
            let h = raw[i];
            let value = to_vec(h.value);
            headers.insert(h.name, &value);
            assert(headers@ =~= raw_list(raw@).subrange(0, i + 1));
            i = i + 1;
        }
        assert(raw_list(raw@).subrange(0, i as int) =~= raw_list(raw@));
        if headers.validate() {
            Ok(headers)
        } else {
            Err(HeaderError::Conflicting)
        }
    }

    /// The wire form of the table: each entry as `Name: value` CR LF in
    /// insertion order, then an empty line.
    pub fn to_utf8(&self) -> (r: Vec<u8>)
        ensures
            r@ == header_block(self@),
    {
        let mut out: Vec<u8> = Vec::new();
        let mut i: usize = 0;
        while i < self.entries.len()
            invariant
                i <= self@.len(),
                self@.len() == self.entries@.len(),
                out@ == header_rows(self@.subrange(0, i as int)),
            decreases self@.len() - i,
        {
            let e = &self.entries[i];
            push_all(&mut out, e.original_name.as_str().as_bytes());
            out.push(58u8);
            out.push(32u8);
            push_all(&mut out, e.value.as_slice());
            out.push(13u8);
            out.push(10u8);
            proof {
                let t = self@.subrange(0, i + 1);
                assert(t.drop_last() =~= self@.subrange(0, i as int));
                assert(out@ =~= header_rows(t));
            }
            i = i + 1;
        }
        assert(self@.subrange(0, i as int) =~= self@);
        out.push(13u8);
        out.push(10u8);
        out
    }
}

impl From<Headers> for Vec<u8> {
    /// The table's wire form, as `to_utf8` gives it.
    fn from(h: Headers) -> (r: Vec<u8>)
        ensures
            r@ == header_block(h@),
    {
        h.to_utf8()
    }
}

impl vstd::std_specs::convert::FromSpecImpl<Headers> for Vec<u8> {
    /// A vector is pinned down by more than its bytes, so only the bytes are promised.
    open spec fn obeys_from_spec() -> bool {
        false
    }

    open spec fn from_spec(h: Headers) -> Vec<u8> {
        choose|v: Vec<u8>| v@ == header_block(h@)
    }
}

/// Where the row of entry `i` starts in the serialized block.
pub open spec fn row_start(s: HeaderList, i: int) -> int {
    header_rows(s.subrange(0, i)).len() as int
}

/// The serialized row of entry `i`.
pub open spec fn row_at(s: HeaderList, i: int) -> Seq<u8> {
    header_row(s[i].0, s[i].1)
}

/// Round trip: the bytes that `to_utf8` gives for a table built by
/// `from_raw` hold, one after the other, the row of each entry of the block
/// (its name as seen, `: `, its value, CR LF) in the block's order across all
/// names, and end with the empty line.
pub proof fn lemma_round_trip(raw: Seq<httparse::Header>, table: Headers, bytes: Seq<u8>)
    requires
        Headers::from_raw_spec(raw_list(raw)) == Ok::<HeaderList, HeaderError>(table@),
        bytes == header_block(table@),
    ensures
        forall|i: int|
            0 <= i < raw.len() ==> bytes.subrange(
                #[trigger] row_start(raw_list(raw), i),
                row_start(raw_list(raw), i) + row_at(raw_list(raw), i).len(),
            ) == row_at(raw_list(raw), i),
        bytes.len() == header_rows(raw_list(raw)).len() + 2,
        bytes.subrange(bytes.len() - 2, bytes.len() as int) == seq![13u8, 10u8],
{
    let s = raw_list(raw);
    assert(table@ == s);
    assert forall|i: int| 0 <= i < raw.len() implies bytes.subrange(
        #[trigger] row_start(s, i),
        row_start(s, i) + row_at(s, i).len(),
    ) == row_at(s, i) by {
        let head = s.subrange(0, i + 1);
        let rest = s.subrange(i + 1, s.len() as int);
        assert(s =~= head + rest);
        lemma_rows_concat(head, rest);
        assert(head.drop_last() =~= s.subrange(0, i));
        assert(header_rows(head) == header_rows(s.subrange(0, i)) + row_at(s, i));
        assert(bytes == header_rows(s.subrange(0, i)) + row_at(s, i) + header_rows(rest) + seq![
            13u8,
            10u8,
        ]);
        assert(bytes.subrange(row_start(s, i), row_start(s, i) + row_at(s, i).len()) =~= row_at(
            s,
            i,
        ));
    }
    assert(bytes.subrange(bytes.len() - 2, bytes.len() as int) =~= seq![13u8, 10u8]);
}

/// Rows concatenate: the rows of two blocks written one after the other are
/// the rows of the joined block, so no entry moves across another.
pub proof fn lemma_rows_concat(a: HeaderList, b: HeaderList)
    ensures
        header_rows(a + b) == header_rows(a) + header_rows(b),
    decreases b.len(),
{
    if b.len() == 0 {
        assert(a + b =~= a);
        assert(header_rows(b) =~= Seq::<u8>::empty());
        assert(header_rows(a) + header_rows(b) =~= header_rows(a));
    } else {
        lemma_rows_concat(a, b.drop_last());
        assert((a + b).drop_last() =~= a + b.drop_last());
        assert((a + b).last() == b.last());
        assert(header_rows(a + b) =~= header_rows(a) + header_rows(b));
    }
}

/// Duplicate rejection: a block with two or more `Host` entries, or two or
/// more `Content-Length` entries, is refused; any other block, duplicates of
/// other names included, is accepted. Two or more `Content-Length` entries
/// also give no length: none of their values is picked.
pub proof fn lemma_duplicate_rejection(raw: HeaderList)
    ensures
        key_count(raw, "host"@) >= 2 ==> Headers::from_raw_spec(raw) == Err::<HeaderList, HeaderError>(
            HeaderError::Conflicting,
        ),
        key_count(raw, "content-length"@) >= 2 ==> Headers::from_raw_spec(raw) == Err::<
            HeaderList,
            HeaderError,
        >(HeaderError::Conflicting),
        key_count(raw, "host"@) <= 1 && key_count(raw, "content-length"@) <= 1
            ==> Headers::from_raw_spec(raw) == Ok::<HeaderList, HeaderError>(raw),
        key_count(raw, "content-length"@) >= 2 ==> content_length_of(raw) == Err::<
            Option<usize>,
            HeaderError,
        >(HeaderError::Conflicting),
{
}

/// Case-insensitive lookup: two names that lower-case alike find the same value.
pub proof fn lemma_case_insensitive_get(table: HeaderList, a: Seq<char>, b: Seq<char>)
    requires
        lower_of(a) == lower_of(b),
    ensures
        first_value(table, lower_of(a)) == first_value(table, lower_of(b)),
{
}

} // verus!
