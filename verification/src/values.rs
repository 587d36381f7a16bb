//! A packed table of values: a run of entries, each a 4-byte header (element
//! count minus one, kind, 16-bit big-endian address) followed by the
//! elements, each as wide as the low four bits of the kind say.

use crate::buffer::{
    buf_as_mut_slice, buf_as_slice, buf_clear, buf_clone, buf_contents, buf_extend, buf_from_slice, buf_len, buf_new,
};
use crate::codec::{
    be_bytes, be_value, lemma_be_value_bound, lemma_be_value_of_bytes, lemma_pow256_values, pow256,
    push_be, read_be,
};
use bytes::BytesMut;
use vstd::prelude::*;
use vstd::string::StringSliceAdditionalSpecFns;
use vstd::utf8::{decode_utf8, encode_utf8, encode_utf8_decode_utf8, encode_utf8_valid_utf8, valid_utf8};

verus! {

/// Kind codes: the low four bits are the width of one element in bytes.
pub const KIND_I8: u8 = 0x81;
pub const KIND_I16: u8 = 0x82;
pub const KIND_I32: u8 = 0x84;
pub const KIND_I64: u8 = 0x88;
pub const KIND_U8: u8 = 0x01;
pub const KIND_U16: u8 = 0x02;
pub const KIND_U32: u8 = 0x04;
pub const KIND_U64: u8 = 0x08;
pub const KIND_F32: u8 = 0x44;
pub const KIND_F64: u8 = 0x48;

/// The width in bytes of each element of the entry at the front of `d`.
pub open spec fn entry_width(d: Seq<u8>) -> nat {
    (d[1] % 16) as nat
}

/// The address of the entry at the front of `d`.
pub open spec fn entry_addr(d: Seq<u8>) -> nat {
    be_value(d.subrange(2, 4))
}

/// The number of elements of the entry at the front of `d`.
pub open spec fn entry_elms(d: Seq<u8>) -> nat {
    d[0] as nat + 1
}

/// The number of bytes the entry at the front of `d` takes.
pub open spec fn entry_len(d: Seq<u8>) -> nat {
    4 + entry_elms(d) * entry_width(d)
}

/// Whether `d` starts with a whole entry.
pub open spec fn entry_complete(d: Seq<u8>) -> bool {
    d.len() >= 4 && d.len() >= entry_len(d)
}

/// What follows the entry at the front of `d`.
pub open spec fn after_entry(d: Seq<u8>) -> Seq<u8> {
    d.subrange(entry_len(d) as int, d.len() as int)
}

/// The `i`-th element, `width` bytes wide, of the entry at the front of `d`.
pub open spec fn element(d: Seq<u8>, width: nat, i: int) -> nat {
    be_value(d.subrange(4 + i * width, 4 + i * width + width))
}

/// The first `cnt` elements of the entry at the front of `d`.
pub open spec fn elements(d: Seq<u8>, width: nat, cnt: nat) -> Seq<nat> {
    Seq::new(cnt, |i: int| element(d, width, i))
}

/// The outcome of looking something up in a table.
pub enum Scan<T> {
    /// The lookup found this.
    Found(T),
    /// Nothing matches.
    Absent,
    /// The table ends in the middle of an entry that the lookup had to read.
    Truncated,
}

/// A table made of whole entries only.
pub open spec fn well_formed(d: Seq<u8>) -> bool
    decreases d.len(),
{
    if d.len() == 0 {
        true
    } else if !entry_complete(d) {
        false
    } else {
        well_formed(after_entry(d))
    }
}

/// Looking up the single value at `addr` among elements `width` bytes wide:
/// the entries are walked from the front; the first entry of one element of
/// that width at that address gives its value.  Every entry walked past must
/// be whole.
pub open spec fn find_one(d: Seq<u8>, addr: u16, width: nat) -> Scan<nat>
    decreases d.len(),
{
    if d.len() == 0 {
        Scan::Absent
    } else if !entry_complete(d) {
        Scan::Truncated
    } else if entry_width(d) == width && d[0] == 0 && entry_addr(d) == addr {
        Scan::Found(element(d, width, 0))
    } else {
        find_one(after_entry(d), addr, width)
    }
}

/// How many elements a lookup of `num` elements reads from an entry of
/// `n + 1` elements: all of them, but no more than `num`.
pub open spec fn many_count(n: u8, num: u16) -> nat {
    if n as nat + 1 <= num as nat {
        n as nat + 1
    } else {
        num as nat
    }
}

/// Looking up `num` values at `addr` among elements `width` bytes wide: the
/// entries are walked from the front; the first entry of elements of that
/// width at that address, whatever their number, gives its first `many_count`
/// elements, which must be there.  Every entry walked past must be whole.
/// `num == 0` finds nothing.
pub open spec fn find_many(d: Seq<u8>, addr: u16, width: nat, num: u16) -> Scan<Seq<nat>>
    decreases d.len(),
{
    if num == 0 || d.len() == 0 {
        Scan::Absent
    } else if d.len() < 4 {
        Scan::Truncated
    } else if entry_width(d) == width && entry_addr(d) == addr {
        let cnt = many_count(d[0], num);
        if d.len() < 4 + cnt * width {
            Scan::Truncated
        } else {
            Scan::Found(elements(d, width, cnt))
        }
    } else if !entry_complete(d) {
        Scan::Truncated
    } else {
        find_many(after_entry(d), addr, width, num)
    }
}

/// Looking up the value at `addr`, `width` bytes wide, in the entry that
/// starts at offset `ipos`.  An offset with fewer than two bytes after it
/// finds nothing; the header must be whole; the entry must have that width and
/// address and at least `width * elms + 2` bytes from `ipos` on; then its
/// first element is read.
pub open spec fn peek_one(d: Seq<u8>, addr: u16, width: nat, ipos: nat) -> Scan<nat> {
    if d.len() < ipos + 2 {
        Scan::Absent
    } else if d.len() < ipos + 4 {
        Scan::Truncated
    } else {
        let e = d.subrange(ipos as int, d.len() as int);
        if entry_width(e) != width || entry_addr(e) != addr || e.len() < width * entry_elms(e) + 2 {
            Scan::Absent
        } else if e.len() < 4 + width {
            Scan::Truncated
        } else {
            Scan::Found(element(e, width, 0))
        }
    }
}

/// Looking up `num` values at `addr`, `width` bytes wide, in the entry that
/// starts at offset `ipos`, as `peek_one` does; then its first `many_count`
/// elements are read.
pub open spec fn peek_many(d: Seq<u8>, addr: u16, width: nat, num: u16, ipos: nat) -> Scan<
    Seq<nat>,
> {
    if num == 0 || d.len() < ipos + 2 {
        Scan::Absent
    } else if d.len() < ipos + 4 {
        Scan::Truncated
    } else {
        let e = d.subrange(ipos as int, d.len() as int);
        let cnt = many_count(e[0], num);
        if entry_width(e) != width || entry_addr(e) != addr || e.len() < width * entry_elms(e) + 2 {
            Scan::Absent
        } else if e.len() < 4 + cnt * width {
            Scan::Truncated
        } else {
            Scan::Found(elements(e, width, cnt))
        }
    }
}

/// The bytes of a one-element entry.
pub open spec fn single_entry(kind: u8, addr: u16, value: nat, width: nat) -> Seq<u8> {
    seq![0u8, kind] + be_bytes(addr as nat, 2) + be_bytes(value, width)
}

/// The elements `vals`, each written big-endian in `width` bytes.
pub open spec fn values_bytes(vals: Seq<nat>, width: nat) -> Seq<u8>
    decreases vals.len(),
{
    if vals.len() == 0 {
        Seq::empty()
    } else {
        values_bytes(vals.drop_last(), width) + be_bytes(vals.last(), width)
    }
}

/// How many of `len` elements an entry at `addr` takes: no more than the
/// addresses left from `addr` on, than 256, and than `len` counted as a `u32`.
pub open spec fn put_count(addr: u16, len: nat) -> nat {
    let room = 0x10000 - addr;
    let l = (len as u32) as int;
    let m = if room <= l {
        room
    } else {
        l
    };
    (if m <= 256 {
        m
    } else {
        256
    }) as nat
}

/// The bytes that storing `vals` at `addr` adds: an entry of the first
/// `put_count` elements, or nothing when there are none.
pub open spec fn many_entry(kind: u8, addr: u16, vals: Seq<nat>, width: nat) -> Seq<u8> {
    let n = put_count(addr, vals.len());
    if n > 0 {
        seq![(n - 1) as u8, kind] + be_bytes(addr as nat, 2) + values_bytes(vals.take(n as int), width)
    } else {
        Seq::empty()
    }
}

/// Whether an exec lookup result is the spec outcome.
pub open spec fn agrees_one(r: Scan<u64>, s: Scan<nat>) -> bool {
    match s {
        Scan::Found(v) => r matches Scan::Found(x) && x as nat == v,
        Scan::Absent => r is Absent,
        Scan::Truncated => r is Truncated,
    }
}

/// Whether an exec lookup result of many values is the spec outcome.
pub open spec fn agrees_many(r: Scan<Vec<u64>>, s: Scan<Seq<nat>>) -> bool {
    match s {
        Scan::Found(vs) => r matches Scan::Found(v) && v@.len() == vs.len() && forall|i: int|
            0 <= i < vs.len() ==> v@[i] as nat == #[trigger] vs[i],
        Scan::Absent => r is Absent,
        Scan::Truncated => r is Truncated,
    }
}

proof fn lemma_low_nibble(k: u8)
    ensures
        k & 0x0f == k % 16,
{
    assert(k & 0x0f == k % 16) by (bit_vector);
}

/// Reads `cnt` elements, `width` bytes wide, starting at `start`.
fn read_elements(s: &[u8], start: usize, width: usize, cnt: usize) -> (v: Vec<u64>)
    requires
        width <= 8,
        start + cnt * width <= s@.len(),
    ensures
        v@.len() == cnt,
        forall|i: int|
            0 <= i < cnt ==> v@[i] as nat == be_value(
                #[trigger] s@.subrange(start + i * width, start + i * width + width),
            ),
{
    let mut v: Vec<u64> = Vec::new();
    let mut i: usize = 0;
    let mut q: usize = start;
    while i < cnt
        invariant
            width <= 8,
            start + cnt * width <= s@.len(),
            s@.len() == s.len(),
            i <= cnt,
            q == start + i * width,
            v@.len() == i,
            forall|j: int|
                0 <= j < i ==> v@[j] as nat == be_value(
                    #[trigger] s@.subrange(start + j * width, start + j * width + width),
                ),
        decreases cnt - i,
    {
        proof {
            assert((i + 1) * width == i * width + width) by (nonlinear_arith);
            assert((i + 1) * width <= cnt * width) by (nonlinear_arith)
                requires
                    i < cnt,
            ;
        }
        let x = read_be(s, q, width);
        v.push(x);
        q = q + width;
        i = i + 1;
    }
    v
}


/// A number type that a table stores: its kind code, its width in bytes, and
/// its bit pattern read as an unsigned number of that width.
pub trait PackedScalar: Sized + Copy {
    /// The kind code written for this type.
    spec fn spec_kind() -> u8;

    /// The width of one element in bytes.
    spec fn spec_width() -> nat;

    /// The bit pattern of `self` as an unsigned number.
    spec fn raw(self) -> nat;

    /// The value whose bit pattern is the low `spec_width()` bytes of `raw`.
    spec fn from_raw(raw: nat) -> Self;

    fn kind() -> (k: u8)
        ensures
            k == Self::spec_kind(),
            k % 16 == Self::spec_width(),
    ;

    fn width() -> (w: usize)
        ensures
            w == Self::spec_width(),
            1 <= w <= 8,
    ;

    fn to_raw(self) -> (r: u64)
        ensures
            r as nat == self.raw(),
    ;

    fn of_raw(raw: u64) -> (r: Self)
        ensures
            r == Self::from_raw(raw as nat),
    ;

    /// A bit pattern fits its width and gives the value back; the kind code
    /// records the width.
    proof fn lemma_raw(v: Self)
        ensures
            v.raw() < pow256(Self::spec_width()),
            Self::from_raw(v.raw()) == v,
            Self::spec_kind() % 16 == Self::spec_width(),
            1 <= Self::spec_width() <= 8,
    ;
}

impl PackedScalar for u8 {
    open spec fn spec_kind() -> u8 {
        KIND_U8
    }

    open spec fn spec_width() -> nat {
        1
    }

    open spec fn raw(self) -> nat {
        self as nat
    }

    open spec fn from_raw(raw: nat) -> u8 {
        raw as u8
    }

    fn kind() -> (k: u8) {
        KIND_U8
    }

    fn width() -> (w: usize) {
        1
    }

    fn to_raw(self) -> (r: u64) {
        self as u64
    }

    fn of_raw(raw: u64) -> (r: u8) {
        raw as u8
    }

    proof fn lemma_raw(v: u8) {
        lemma_pow256_values();
    }
}

impl PackedScalar for u16 {
    open spec fn spec_kind() -> u8 {
        KIND_U16
    }

    open spec fn spec_width() -> nat {
        2
    }

    open spec fn raw(self) -> nat {
        self as nat
    }

    open spec fn from_raw(raw: nat) -> u16 {
        raw as u16
    }

    fn kind() -> (k: u8) {
        KIND_U16
    }

    fn width() -> (w: usize) {
        2
    }

    fn to_raw(self) -> (r: u64) {
        self as u64
    }

    fn of_raw(raw: u64) -> (r: u16) {
        raw as u16
    }

    proof fn lemma_raw(v: u16) {
        lemma_pow256_values();
    }
}

impl PackedScalar for u32 {
    open spec fn spec_kind() -> u8 {
        KIND_U32
    }

    open spec fn spec_width() -> nat {
        4
    }

    open spec fn raw(self) -> nat {
        self as nat
    }

    open spec fn from_raw(raw: nat) -> u32 {
        raw as u32
    }

    fn kind() -> (k: u8) {
        KIND_U32
    }

    fn width() -> (w: usize) {
        4
    }

    fn to_raw(self) -> (r: u64) {
        self as u64
    }

    fn of_raw(raw: u64) -> (r: u32) {
        raw as u32
    }

    proof fn lemma_raw(v: u32) {
        lemma_pow256_values();
    }
}

impl PackedScalar for u64 {
    open spec fn spec_kind() -> u8 {
        KIND_U64
    }

    open spec fn spec_width() -> nat {
        8
    }

    open spec fn raw(self) -> nat {
        self as nat
    }

    open spec fn from_raw(raw: nat) -> u64 {
        raw as u64
    }

    fn kind() -> (k: u8) {
        KIND_U64
    }

    fn width() -> (w: usize) {
        8
    }

    fn to_raw(self) -> (r: u64) {
        self
    }

    fn of_raw(raw: u64) -> (r: u64) {
        raw
    }

    proof fn lemma_raw(v: u64) {
        lemma_pow256_values();
    }
}

impl PackedScalar for i8 {
    open spec fn spec_kind() -> u8 {
        KIND_I8
    }

    open spec fn spec_width() -> nat {
        1
    }

    open spec fn raw(self) -> nat {
        (self as u8) as nat
    }

    open spec fn from_raw(raw: nat) -> i8 {
        raw as i8
    }

    fn kind() -> (k: u8) {
        KIND_I8
    }

    fn width() -> (w: usize) {
        1
    }

    fn to_raw(self) -> (r: u64) {
        (self as u8) as u64
    }

    fn of_raw(raw: u64) -> (r: i8) {
        raw as i8
    }

    proof fn lemma_raw(v: i8) {
        lemma_pow256_values();
        assert((v as u8) as i8 == v) by (bit_vector);
    }
}

impl PackedScalar for i16 {
    open spec fn spec_kind() -> u8 {
        KIND_I16
    }

    open spec fn spec_width() -> nat {
        2
    }

    open spec fn raw(self) -> nat {
        (self as u16) as nat
    }

    open spec fn from_raw(raw: nat) -> i16 {
        raw as i16
    }

    fn kind() -> (k: u8) {
        KIND_I16
    }

    fn width() -> (w: usize) {
        2
    }

    fn to_raw(self) -> (r: u64) {
        (self as u16) as u64
    }

    fn of_raw(raw: u64) -> (r: i16) {
        raw as i16
    }

    proof fn lemma_raw(v: i16) {
        lemma_pow256_values();
        assert((v as u16) as i16 == v) by (bit_vector);
    }
}

impl PackedScalar for i32 {
    open spec fn spec_kind() -> u8 {
        KIND_I32
    }

    open spec fn spec_width() -> nat {
        4
    }

    open spec fn raw(self) -> nat {
        (self as u32) as nat
    }

    open spec fn from_raw(raw: nat) -> i32 {
        raw as i32
    }

    fn kind() -> (k: u8) {
        KIND_I32
    }

    fn width() -> (w: usize) {
        4
    }

    fn to_raw(self) -> (r: u64) {
        (self as u32) as u64
    }

    fn of_raw(raw: u64) -> (r: i32) {
        raw as i32
    }

    proof fn lemma_raw(v: i32) {
        lemma_pow256_values();
        assert((v as u32) as i32 == v) by (bit_vector);
    }
}

impl PackedScalar for i64 {
    open spec fn spec_kind() -> u8 {
        KIND_I64
    }

    open spec fn spec_width() -> nat {
        8
    }

    open spec fn raw(self) -> nat {
        (self as u64) as nat
    }

    open spec fn from_raw(raw: nat) -> i64 {
        raw as i64
    }

    fn kind() -> (k: u8) {
        KIND_I64
    }

    fn width() -> (w: usize) {
        8
    }

    fn to_raw(self) -> (r: u64) {
        self as u64
    }

    fn of_raw(raw: u64) -> (r: i64) {
        raw as i64
    }

    proof fn lemma_raw(v: i64) {
        lemma_pow256_values();
        assert((v as u64) as i64 == v) by (bit_vector);
    }
}

/// Whether looking up the single `T` at `addr` in `d` reads only whole data.
pub open spec fn get_ok<T: PackedScalar>(d: Seq<u8>, addr: u16) -> bool {
    !(find_one(d, addr, T::spec_width()) is Truncated)
}

/// The single `T` at `addr` in `d`, if any.
pub open spec fn get_spec<T: PackedScalar>(d: Seq<u8>, addr: u16) -> Option<T> {
    match find_one(d, addr, T::spec_width()) {
        Scan::Found(v) => Some(T::from_raw(v)),
        _ => None,
    }
}

/// Whether looking up `num` values of `T` at `addr` in `d` reads only whole data.
pub open spec fn get_many_ok<T: PackedScalar>(d: Seq<u8>, addr: u16, num: u16) -> bool {
    !(find_many(d, addr, T::spec_width(), num) is Truncated)
}

/// The values of `T` that looking up `num` of them at `addr` in `d` gives, if any.
pub open spec fn get_many_spec<T: PackedScalar>(d: Seq<u8>, addr: u16, num: u16) -> Option<Seq<T>> {
    match find_many(d, addr, T::spec_width(), num) {
        Scan::Found(vs) => Some(vs.map_values(|v: nat| T::from_raw(v))),
        _ => None,
    }
}

/// Whether looking up the `T` at `addr` in the entry at `ipos` reads only whole data.
pub open spec fn peek_ok<T: PackedScalar>(d: Seq<u8>, addr: u16, ipos: nat) -> bool {
    !(peek_one(d, addr, T::spec_width(), ipos) is Truncated)
}

/// The `T` at `addr` in the entry at `ipos` of `d`, if any.
pub open spec fn peek_spec<T: PackedScalar>(d: Seq<u8>, addr: u16, ipos: nat) -> Option<T> {
    match peek_one(d, addr, T::spec_width(), ipos) {
        Scan::Found(v) => Some(T::from_raw(v)),
        _ => None,
    }
}

/// Whether looking up `num` values of `T` in the entry at `ipos` reads only whole data.
pub open spec fn peek_many_ok<T: PackedScalar>(d: Seq<u8>, addr: u16, num: u16, ipos: nat) -> bool {
    !(peek_many(d, addr, T::spec_width(), num, ipos) is Truncated)
}

/// The values of `T` at `addr` in the entry at `ipos` of `d`, if any.
pub open spec fn peek_many_spec<T: PackedScalar>(d: Seq<u8>, addr: u16, num: u16, ipos: nat) -> Option<
    Seq<T>,
> {
    match peek_many(d, addr, T::spec_width(), num, ipos) {
        Scan::Found(vs) => Some(vs.map_values(|v: nat| T::from_raw(v))),
        _ => None,
    }
}

/// The bytes that storing the single `T` value `val` at `addr` appends.
pub open spec fn put_spec<T: PackedScalar>(addr: u16, val: T) -> Seq<u8> {
    single_entry(T::spec_kind(), addr, val.raw(), T::spec_width())
}

/// The bytes that storing the `T` values `vals` at `addr` appends.
pub open spec fn put_many_spec<T: PackedScalar>(addr: u16, vals: Seq<T>) -> Seq<u8> {
    many_entry(T::spec_kind(), addr, vals.map_values(|v: T| v.raw()), T::spec_width())
}

/// The contents of an optional vector.
pub open spec fn opt_vec_view<T>(r: Option<Vec<T>>) -> Option<Seq<T>> {
    match r {
        Some(v) => Some(v@),
        None => None,
    }
}

/// Turns raw patterns into values of `T`.
fn values_of_raw<T: PackedScalar>(raws: &Vec<u64>) -> (r: Vec<T>)
    ensures
        r@ == raws@.map_values(|v: u64| T::from_raw(v as nat)),
{
    let mut r: Vec<T> = Vec::new();
    let mut i: usize = 0;
    while i < raws.len()
        invariant
            i <= raws@.len(),
            r@ =~= raws@.take(i as int).map_values(|v: u64| T::from_raw(v as nat)),
        decreases raws@.len() - i,
    {
        r.push(T::of_raw(raws[i]));
        proof {
            assert(raws@.take(i + 1) =~= raws@.take(i as int).push(raws@[i as int]));
        }
        i = i + 1;
    }
    proof {
        assert(raws@.take(raws@.len() as int) =~= raws@);
    }
    r
}

/// Turns values of `T` into raw patterns.
fn raws_of_values<T: PackedScalar>(vals: &[T]) -> (r: Vec<u64>)
    ensures
        r@.map_values(|x: u64| x as nat) == vals@.map_values(|v: T| v.raw()),
{
    let mut r: Vec<u64> = Vec::new();
    let mut i: usize = 0;
    while i < vals.len()
        invariant
            i <= vals@.len(),
            r@.len() == i,
            forall|j: int| 0 <= j < i ==> #[trigger] r@[j] as nat == vals@[j].raw(),
        decreases vals@.len() - i,
    {
        let x = vals[i].to_raw();
        r.push(x);
        i = i + 1;
    }
    proof {
        assert(r@.map_values(|x: u64| x as nat) =~= vals@.map_values(|v: T| v.raw()));
    }
    r
}

/// A table of values packed into bytes.
#[derive(Debug)]
pub struct PackedValues {
    data: BytesMut,
}

impl View for PackedValues {
    type V = Seq<u8>;

    closed spec fn view(&self) -> Seq<u8> {
        buf_contents(self.data)
    }
}

impl PackedValues {
    /// An empty table.
    pub fn new() -> (pv: Self)
        ensures
            pv@ == Seq::<u8>::empty(),
    {
        PackedValues { data: buf_new() }
    }

    /// A table holding a copy of `data`.
    pub fn with_bytes(data: &[u8]) -> (pv: Self)
        ensures
            pv@ == data@,
    {
        PackedValues { data: buf_from_slice(data) }
    }

    /// The bytes of the table.
    pub fn as_bytes(&self) -> (s: &[u8])
        ensures
            s@ == self@,
    {
        buf_as_slice(&self.data)
    }

    /// Removes every entry.
    pub fn clear(&mut self)
        ensures
            final(self)@ == Seq::<u8>::empty(),
    {
        buf_clear(&mut self.data)
    }

    /// Whether the table holds no bytes.
    pub fn is_empty(&self) -> (r: bool)
        ensures
            r == (self@.len() == 0),
    {
        buf_len(&self.data) == 0
    }

    /// Looks up the single value at `addr` among elements `width` bytes wide.
    pub fn lookup(&self, addr: u16, width: usize) -> (r: Scan<u64>)
        requires
            width <= 8,
        ensures
            agrees_one(r, find_one(self@, addr, width as nat)),
    {
        let s = buf_as_slice(&self.data);
        let len = s.len();
        let mut pos: usize = 0;
        proof {
            assert(s@.subrange(0, len as int) =~= s@);
        }
        while pos < len
            invariant
                width <= 8,
                len == s@.len(),
                s@ == self@,
                pos <= len,
                find_one(s@, addr, width as nat) == find_one(
                    s@.subrange(pos as int, len as int),
                    addr,
                    width as nat,
                ),
            decreases len - pos,
        {
            let ghost e = s@.subrange(pos as int, len as int);
            if len - pos < 4 {
                return Scan::Truncated;
            }
            let n = s[pos];
            let k = s[pos + 1];
            let w = (k & 0x0f) as usize;
            let curr = read_be(s, pos + 2, 2) as u16;
            proof {
                lemma_low_nibble(k);
                assert(e.subrange(2, 4) =~= s@.subrange(pos + 2, pos + 4));
                lemma_be_value_bound(e.subrange(2, 4));
                lemma_pow256_values();
                assert((n as nat + 1) * (w as nat) <= 256 * 15) by (nonlinear_arith)
                    requires
                        n < 256,
                        w < 16,
                ;
            }
            let elen = 4 + (n as usize + 1) * w;
            assert(e[0] == n && e[1] == k);
            assert(entry_len(e) == elen);
            if len - pos < elen {
                return Scan::Truncated;
            }
            if w == width && n == 0 && curr == addr {
                assert(elen == 4 + width) by (nonlinear_arith)
                    requires
                        elen == 4 + (n as usize + 1) * w,
                        n == 0,
                        w == width,
                ;
                let v = read_be(s, pos + 4, width);
                proof {
                    assert(e.subrange(4, 4 + width) =~= s@.subrange(pos + 4, pos + 4 + width));
                }
                return Scan::Found(v);
            }
            proof {
                assert(after_entry(e) =~= s@.subrange(pos + elen, len as int));
            }
            pos = pos + elen;
        }
        Scan::Absent
    }

    /// Looks up `num` values at `addr` among elements `width` bytes wide.
    pub fn lookup_many(&self, addr: u16, num: u16, width: usize) -> (r: Scan<Vec<u64>>)
        requires
            width <= 8,
        ensures
            agrees_many(r, find_many(self@, addr, width as nat, num)),
    {
        if num == 0 {
            return Scan::Absent;
        }
        let s = buf_as_slice(&self.data);
        let len = s.len();
        let mut pos: usize = 0;
        proof {
            assert(s@.subrange(0, len as int) =~= s@);
        }
        while pos < len
            invariant
                width <= 8,
                num > 0,
                len == s@.len(),
                s@ == self@,
                pos <= len,
                find_many(s@, addr, width as nat, num) == find_many(
                    s@.subrange(pos as int, len as int),
                    addr,
                    width as nat,
                    num,
                ),
            decreases len - pos,
        {
            let ghost e = s@.subrange(pos as int, len as int);
            if len - pos < 4 {
                return Scan::Truncated;
            }
            let n = s[pos];
            let k = s[pos + 1];
            let w = (k & 0x0f) as usize;
            let curr = read_be(s, pos + 2, 2) as u16;
            proof {
                lemma_low_nibble(k);
                assert(e.subrange(2, 4) =~= s@.subrange(pos + 2, pos + 4));
                lemma_be_value_bound(e.subrange(2, 4));
                lemma_pow256_values();
                assert((n as nat + 1) * (w as nat) <= 256 * 15) by (nonlinear_arith)
                    requires
                        n < 256,
                        w < 16,
                ;
            }
            assert(e[0] == n && e[1] == k);
            if w == width && curr == addr {
                let cnt: usize = if n as usize + 1 <= num as usize {
                    n as usize + 1
                } else {
                    num as usize
                };
                assert(cnt == many_count(n, num));
                proof {
                    assert(cnt * width <= 256 * 8) by (nonlinear_arith)
                        requires
                            cnt <= 256,
                            width <= 8,
                    ;
                }
                if len - pos < 4 + cnt * width {
                    return Scan::Truncated;
                }
                let v = read_elements(s, pos + 4, width, cnt);
                proof {
                    let vs = elements(e, width as nat, cnt as nat);
                    assert forall|i: int| 0 <= i < vs.len() implies v@[i] as nat == #[trigger] vs[i] by {
                        assert(i * width + width <= cnt * width) by (nonlinear_arith)
                            requires
                                0 <= i < cnt,
                        ;
                        assert(e.subrange(4 + i * width, 4 + i * width + width) =~= s@.subrange(
                            pos + 4 + i * width,
                            pos + 4 + i * width + width,
                        ));
                    }
                }
                return Scan::Found(v);
            }
            let elen = 4 + (n as usize + 1) * w;
            assert(entry_len(e) == elen);
            if len - pos < elen {
                return Scan::Truncated;
            }
            proof {
                assert(after_entry(e) =~= s@.subrange(pos + elen, len as int));
            }
            pos = pos + elen;
        }
        Scan::Absent
    }

    /// Looks up the value at `addr`, `width` bytes wide, in the entry at
    /// offset `ipos`.
    pub fn peek_lookup(&self, addr: u16, width: usize, ipos: usize) -> (r: Scan<u64>)
        requires
            width <= 8,
        ensures
            agrees_one(r, peek_one(self@, addr, width as nat, ipos as nat)),
    {
        let s = buf_as_slice(&self.data);
        let len = s.len();
        if ipos > len || len - ipos < 2 {
            return Scan::Absent;
        }
        if len - ipos < 4 {
            return Scan::Truncated;
        }
        let ghost e = s@.subrange(ipos as int, len as int);
        let rem = len - ipos;
        let n = s[ipos];
        let k = s[ipos + 1];
        let w = (k & 0x0f) as usize;
        let curr = read_be(s, ipos + 2, 2) as u16;
        proof {
            lemma_low_nibble(k);
            assert(e.subrange(2, 4) =~= s@.subrange(ipos + 2, ipos + 4));
            lemma_be_value_bound(e.subrange(2, 4));
            lemma_pow256_values();
            assert(width * (n as nat + 1) <= 8 * 256) by (nonlinear_arith)
                requires
                    n < 256,
                    width <= 8,
            ;
        }
        assert(e[0] == n && e[1] == k);
        let val_bytes = width * (n as usize + 1);
        if w != width || curr != addr || rem < val_bytes + 2 {
            return Scan::Absent;
        }
        if rem < 4 + width {
            return Scan::Truncated;
        }
        let v = read_be(s, ipos + 4, width);
        proof {
            assert(e.subrange(4, 4 + width) =~= s@.subrange(ipos + 4, ipos + 4 + width));
        }
        Scan::Found(v)
    }

    /// Looks up `num` values at `addr`, `width` bytes wide, in the entry at
    /// offset `ipos`.
    pub fn peek_lookup_many(&self, addr: u16, num: u16, width: usize, ipos: usize) -> (r: Scan<
        Vec<u64>,
    >)
        requires
            width <= 8,
        ensures
            agrees_many(r, peek_many(self@, addr, width as nat, num, ipos as nat)),
    {
        let s = buf_as_slice(&self.data);
        let len = s.len();
        if num == 0 || ipos > len || len - ipos < 2 {
            return Scan::Absent;
        }
        if len - ipos < 4 {
            return Scan::Truncated;
        }
        let ghost e = s@.subrange(ipos as int, len as int);
        let rem = len - ipos;
        let n = s[ipos];
        let k = s[ipos + 1];
        let w = (k & 0x0f) as usize;
        let curr = read_be(s, ipos + 2, 2) as u16;
        proof {
            lemma_low_nibble(k);
            assert(e.subrange(2, 4) =~= s@.subrange(ipos + 2, ipos + 4));
            lemma_be_value_bound(e.subrange(2, 4));
            lemma_pow256_values();
            assert(width * (n as nat + 1) <= 8 * 256) by (nonlinear_arith)
                requires
                    n < 256,
                    width <= 8,
            ;
        }
        assert(e[0] == n && e[1] == k);
        let val_bytes = width * (n as usize + 1);
        if w != width || curr != addr || rem < val_bytes + 2 {
            return Scan::Absent;
        }
        let cnt: usize = if n as usize + 1 <= num as usize {
            n as usize + 1
        } else {
            num as usize
        };
        assert(cnt == many_count(n, num));
        proof {
            assert(cnt * width <= 256 * 8) by (nonlinear_arith)
                requires
                    cnt <= 256,
                    width <= 8,
            ;
        }
        if rem < 4 + cnt * width {
            return Scan::Truncated;
        }
        let v = read_elements(s, ipos + 4, width, cnt);
        proof {
            let vs = elements(e, width as nat, cnt as nat);
            assert forall|i: int| 0 <= i < vs.len() implies v@[i] as nat == #[trigger] vs[i] by {
                assert(i * width + width <= cnt * width) by (nonlinear_arith)
                    requires
                        0 <= i < cnt,
                ;
                assert(e.subrange(4 + i * width, 4 + i * width + width) =~= s@.subrange(
                    ipos + 4 + i * width,
                    ipos + 4 + i * width + width,
                ));
            }
        }
        Scan::Found(v)
    }

    /// The single `T` at `addr`: the first one-element entry of `T`'s width at
    /// that address.
    pub fn get_value<T: PackedScalar>(&self, addr: u16) -> (r: Option<T>)
        requires
            get_ok::<T>(self@, addr),
        ensures
            r == get_spec::<T>(self@, addr),
    {
        match self.lookup(addr, T::width()) {
            Scan::Found(v) => Some(T::of_raw(v)),
            _ => None,
        }
    }

    /// Up to `num` values of `T` at `addr`, from the first entry of more than
    /// one element of `T`'s width at that address.
    pub fn get_values<T: PackedScalar>(&self, addr: u16, num: u16) -> (r: Option<Vec<T>>)
        requires
            get_many_ok::<T>(self@, addr, num),
        ensures
            opt_vec_view(r) == get_many_spec::<T>(self@, addr, num),
    {
        match self.lookup_many(addr, num, T::width()) {
            Scan::Found(v) => {
                let r = values_of_raw::<T>(&v);
                proof {
                    let vs = find_many(self@, addr, T::spec_width(), num)->Found_0;
                    assert(r@ =~= vs.map_values(|x: nat| T::from_raw(x)));
                }
                Some(r)
            },
            _ => None,
        }
    }

    /// The `T` at `addr` in the entry at offset `ipos`.
    pub fn peek_value<T: PackedScalar>(&self, addr: u16, ipos: usize) -> (r: Option<T>)
        requires
            peek_ok::<T>(self@, addr, ipos as nat),
        ensures
            r == peek_spec::<T>(self@, addr, ipos as nat),
    {
        match self.peek_lookup(addr, T::width(), ipos) {
            Scan::Found(v) => Some(T::of_raw(v)),
            _ => None,
        }
    }

    /// Up to `num` values of `T` at `addr` in the entry at offset `ipos`.
    pub fn peek_values<T: PackedScalar>(&self, addr: u16, num: u16, ipos: usize) -> (r: Option<
        Vec<T>,
    >)
        requires
            peek_many_ok::<T>(self@, addr, num, ipos as nat),
        ensures
            opt_vec_view(r) == peek_many_spec::<T>(self@, addr, num, ipos as nat),
    {
        match self.peek_lookup_many(addr, num, T::width(), ipos) {
            Scan::Found(v) => {
                let r = values_of_raw::<T>(&v);
                proof {
                    let vs = peek_many(self@, addr, T::spec_width(), num, ipos as nat)->Found_0;
                    assert(r@ =~= vs.map_values(|x: nat| T::from_raw(x)));
                }
                Some(r)
            },
            _ => None,
        }
    }

    /// Appends a one-element entry holding `val` at `addr`.
    pub fn put_value<T: PackedScalar>(&mut self, addr: u16, val: T)
        ensures
            final(self)@ == old(self)@ + put_spec::<T>(addr, val),
    {
        self.append_single(T::kind(), addr, val.to_raw(), T::width());
    }

    /// Appends an entry holding the first `put_count` values of `vals` at
    /// `addr`, when there is at least one.
    pub fn put_values<T: PackedScalar>(&mut self, addr: u16, vals: &[T])
        ensures
            final(self)@ == old(self)@ + put_many_spec::<T>(addr, vals@),
    {
        let raws = raws_of_values(vals);
        self.append_many(T::kind(), addr, raws.as_slice(), T::width());
    }

    /// The single `i8` at `addr`.
    pub fn get_i8(&self, addr: u16) -> (r: Option<i8>)
        requires
            get_ok::<i8>(self@, addr),
        ensures
            r == get_spec::<i8>(self@, addr),
    {
        self.get_value::<i8>(addr)
    }

    /// Up to `num` values of type `i8` at `addr`.
    pub fn get_i8s(&self, addr: u16, num: u16) -> (r: Option<Vec<i8>>)
        requires
            get_many_ok::<i8>(self@, addr, num),
        ensures
            opt_vec_view(r) == get_many_spec::<i8>(self@, addr, num),
    {
        self.get_values::<i8>(addr, num)
    }

    /// The `i8` at `addr` in the entry at offset `ipos`.
    pub fn peek_i8(&self, addr: u16, ipos: usize) -> (r: Option<i8>)
        requires
            peek_ok::<i8>(self@, addr, ipos as nat),
        ensures
            r == peek_spec::<i8>(self@, addr, ipos as nat),
    {
        self.peek_value::<i8>(addr, ipos)
    }

    /// Up to `num` values of type `i8` at `addr` in the entry at offset `ipos`.
    pub fn peek_i8s(&self, addr: u16, num: u16, ipos: usize) -> (r: Option<Vec<i8>>)
        requires
            peek_many_ok::<i8>(self@, addr, num, ipos as nat),
        ensures
            opt_vec_view(r) == peek_many_spec::<i8>(self@, addr, num, ipos as nat),
    {
        self.peek_values::<i8>(addr, num, ipos)
    }

    /// Stores the `i8` value `val` at `addr`.
    pub fn put_i8(&mut self, addr: u16, val: i8)
        ensures
            final(self)@ == old(self)@ + put_spec::<i8>(addr, val),
    {
        self.put_value::<i8>(addr, val)
    }

    /// Stores the `i8` values `vals` from `addr` on.
    pub fn put_i8s(&mut self, addr: u16, vals: &[i8])
        ensures
            final(self)@ == old(self)@ + put_many_spec::<i8>(addr, vals@),
    {
        self.put_values::<i8>(addr, vals)
    }

    /// The single `i16` at `addr`.
    pub fn get_i16(&self, addr: u16) -> (r: Option<i16>)
        requires
            get_ok::<i16>(self@, addr),
        ensures
            r == get_spec::<i16>(self@, addr),
    {
        self.get_value::<i16>(addr)
    }

    /// Up to `num` values of type `i16` at `addr`.
    pub fn get_i16s(&self, addr: u16, num: u16) -> (r: Option<Vec<i16>>)
        requires
            get_many_ok::<i16>(self@, addr, num),
        ensures
            opt_vec_view(r) == get_many_spec::<i16>(self@, addr, num),
    {
        self.get_values::<i16>(addr, num)
    }

    /// The `i16` at `addr` in the entry at offset `ipos`.
    pub fn peek_i16(&self, addr: u16, ipos: usize) -> (r: Option<i16>)
        requires
            peek_ok::<i16>(self@, addr, ipos as nat),
        ensures
            r == peek_spec::<i16>(self@, addr, ipos as nat),
    {
        self.peek_value::<i16>(addr, ipos)
    }

    /// Up to `num` values of type `i16` at `addr` in the entry at offset `ipos`.
    pub fn peek_i16s(&self, addr: u16, num: u16, ipos: usize) -> (r: Option<Vec<i16>>)
        requires
            peek_many_ok::<i16>(self@, addr, num, ipos as nat),
        ensures
            opt_vec_view(r) == peek_many_spec::<i16>(self@, addr, num, ipos as nat),
    {
        self.peek_values::<i16>(addr, num, ipos)
    }

    /// Stores the `i16` value `val` at `addr`.
    pub fn put_i16(&mut self, addr: u16, val: i16)
        ensures
            final(self)@ == old(self)@ + put_spec::<i16>(addr, val),
    {
        self.put_value::<i16>(addr, val)
    }

    /// Stores the `i16` values `vals` from `addr` on.
    pub fn put_i16s(&mut self, addr: u16, vals: &[i16])
        ensures
            final(self)@ == old(self)@ + put_many_spec::<i16>(addr, vals@),
    {
        self.put_values::<i16>(addr, vals)
    }

    /// The single `i32` at `addr`.
    pub fn get_i32(&self, addr: u16) -> (r: Option<i32>)
        requires
            get_ok::<i32>(self@, addr),
        ensures
            r == get_spec::<i32>(self@, addr),
    {
        self.get_value::<i32>(addr)
    }

    /// Up to `num` values of type `i32` at `addr`.
    pub fn get_i32s(&self, addr: u16, num: u16) -> (r: Option<Vec<i32>>)
        requires
            get_many_ok::<i32>(self@, addr, num),
        ensures
            opt_vec_view(r) == get_many_spec::<i32>(self@, addr, num),
    {
        self.get_values::<i32>(addr, num)
    }

    /// The `i32` at `addr` in the entry at offset `ipos`.
    pub fn peek_i32(&self, addr: u16, ipos: usize) -> (r: Option<i32>)
        requires
            peek_ok::<i32>(self@, addr, ipos as nat),
        ensures
            r == peek_spec::<i32>(self@, addr, ipos as nat),
    {
        self.peek_value::<i32>(addr, ipos)
    }

    /// Up to `num` values of type `i32` at `addr` in the entry at offset `ipos`.
    pub fn peek_i32s(&self, addr: u16, num: u16, ipos: usize) -> (r: Option<Vec<i32>>)
        requires
            peek_many_ok::<i32>(self@, addr, num, ipos as nat),
        ensures
            opt_vec_view(r) == peek_many_spec::<i32>(self@, addr, num, ipos as nat),
    {
        self.peek_values::<i32>(addr, num, ipos)
    }

    /// Stores the `i32` value `val` at `addr`.
    pub fn put_i32(&mut self, addr: u16, val: i32)
        ensures
            final(self)@ == old(self)@ + put_spec::<i32>(addr, val),
    {
        self.put_value::<i32>(addr, val)
    }

    /// Stores the `i32` values `vals` from `addr` on.
    pub fn put_i32s(&mut self, addr: u16, vals: &[i32])
        ensures
            final(self)@ == old(self)@ + put_many_spec::<i32>(addr, vals@),
    {
        self.put_values::<i32>(addr, vals)
    }

    /// The single `i64` at `addr`.
    pub fn get_i64(&self, addr: u16) -> (r: Option<i64>)
        requires
            get_ok::<i64>(self@, addr),
        ensures
            r == get_spec::<i64>(self@, addr),
    {
        self.get_value::<i64>(addr)
    }

    /// Up to `num` values of type `i64` at `addr`.
    pub fn get_i64s(&self, addr: u16, num: u16) -> (r: Option<Vec<i64>>)
        requires
            get_many_ok::<i64>(self@, addr, num),
        ensures
            opt_vec_view(r) == get_many_spec::<i64>(self@, addr, num),
    {
        self.get_values::<i64>(addr, num)
    }

    /// The `i64` at `addr` in the entry at offset `ipos`.
    pub fn peek_i64(&self, addr: u16, ipos: usize) -> (r: Option<i64>)
        requires
            peek_ok::<i64>(self@, addr, ipos as nat),
        ensures
            r == peek_spec::<i64>(self@, addr, ipos as nat),
    {
        self.peek_value::<i64>(addr, ipos)
    }

    /// Up to `num` values of type `i64` at `addr` in the entry at offset `ipos`.
    pub fn peek_i64s(&self, addr: u16, num: u16, ipos: usize) -> (r: Option<Vec<i64>>)
        requires
            peek_many_ok::<i64>(self@, addr, num, ipos as nat),
        ensures
            opt_vec_view(r) == peek_many_spec::<i64>(self@, addr, num, ipos as nat),
    {
        self.peek_values::<i64>(addr, num, ipos)
    }

    /// Stores the `i64` value `val` at `addr`.
    pub fn put_i64(&mut self, addr: u16, val: i64)
        ensures
            final(self)@ == old(self)@ + put_spec::<i64>(addr, val),
    {
        self.put_value::<i64>(addr, val)
    }

    /// Stores the `i64` values `vals` from `addr` on.
    pub fn put_i64s(&mut self, addr: u16, vals: &[i64])
        ensures
            final(self)@ == old(self)@ + put_many_spec::<i64>(addr, vals@),
    {
        self.put_values::<i64>(addr, vals)
    }

    /// The single `u8` at `addr`.
    pub fn get_u8(&self, addr: u16) -> (r: Option<u8>)
        requires
            get_ok::<u8>(self@, addr),
        ensures
            r == get_spec::<u8>(self@, addr),
    {
        self.get_value::<u8>(addr)
    }

    /// Up to `num` values of type `u8` at `addr`.
    pub fn get_u8s(&self, addr: u16, num: u16) -> (r: Option<Vec<u8>>)
        requires
            get_many_ok::<u8>(self@, addr, num),
        ensures
            opt_vec_view(r) == get_many_spec::<u8>(self@, addr, num),
    {
        self.get_values::<u8>(addr, num)
    }

    /// The `u8` at `addr` in the entry at offset `ipos`.
    pub fn peek_u8(&self, addr: u16, ipos: usize) -> (r: Option<u8>)
        requires
            peek_ok::<u8>(self@, addr, ipos as nat),
        ensures
            r == peek_spec::<u8>(self@, addr, ipos as nat),
    {
        self.peek_value::<u8>(addr, ipos)
    }

    /// Up to `num` values of type `u8` at `addr` in the entry at offset `ipos`.
    pub fn peek_u8s(&self, addr: u16, num: u16, ipos: usize) -> (r: Option<Vec<u8>>)
        requires
            peek_many_ok::<u8>(self@, addr, num, ipos as nat),
        ensures
            opt_vec_view(r) == peek_many_spec::<u8>(self@, addr, num, ipos as nat),
    {
        self.peek_values::<u8>(addr, num, ipos)
    }

    /// Stores the `u8` value `val` at `addr`.
    pub fn put_u8(&mut self, addr: u16, val: u8)
        ensures
            final(self)@ == old(self)@ + put_spec::<u8>(addr, val),
    {
        self.put_value::<u8>(addr, val)
    }

    /// Stores the `u8` values `vals` from `addr` on.
    pub fn put_u8s(&mut self, addr: u16, vals: &[u8])
        ensures
            final(self)@ == old(self)@ + put_many_spec::<u8>(addr, vals@),
    {
        self.put_values::<u8>(addr, vals)
    }

    /// The single `u16` at `addr`.
    pub fn get_u16(&self, addr: u16) -> (r: Option<u16>)
        requires
            get_ok::<u16>(self@, addr),
        ensures
            r == get_spec::<u16>(self@, addr),
    {
        self.get_value::<u16>(addr)
    }

    /// Up to `num` values of type `u16` at `addr`.
    pub fn get_u16s(&self, addr: u16, num: u16) -> (r: Option<Vec<u16>>)
        requires
            get_many_ok::<u16>(self@, addr, num),
        ensures
            opt_vec_view(r) == get_many_spec::<u16>(self@, addr, num),
    {
        self.get_values::<u16>(addr, num)
    }

    /// The `u16` at `addr` in the entry at offset `ipos`.
    pub fn peek_u16(&self, addr: u16, ipos: usize) -> (r: Option<u16>)
        requires
            peek_ok::<u16>(self@, addr, ipos as nat),
        ensures
            r == peek_spec::<u16>(self@, addr, ipos as nat),
    {
        self.peek_value::<u16>(addr, ipos)
    }

    /// Up to `num` values of type `u16` at `addr` in the entry at offset `ipos`.
    pub fn peek_u16s(&self, addr: u16, num: u16, ipos: usize) -> (r: Option<Vec<u16>>)
        requires
            peek_many_ok::<u16>(self@, addr, num, ipos as nat),
        ensures
            opt_vec_view(r) == peek_many_spec::<u16>(self@, addr, num, ipos as nat),
    {
        self.peek_values::<u16>(addr, num, ipos)
    }

    /// Stores the `u16` value `val` at `addr`.
    pub fn put_u16(&mut self, addr: u16, val: u16)
        ensures
            final(self)@ == old(self)@ + put_spec::<u16>(addr, val),
    {
        self.put_value::<u16>(addr, val)
    }

    /// Stores the `u16` values `vals` from `addr` on.
    pub fn put_u16s(&mut self, addr: u16, vals: &[u16])
        ensures
            final(self)@ == old(self)@ + put_many_spec::<u16>(addr, vals@),
    {
        self.put_values::<u16>(addr, vals)
    }

    /// The single `u32` at `addr`.
    pub fn get_u32(&self, addr: u16) -> (r: Option<u32>)
        requires
            get_ok::<u32>(self@, addr),
        ensures
            r == get_spec::<u32>(self@, addr),
    {
        self.get_value::<u32>(addr)
    }

    /// Up to `num` values of type `u32` at `addr`.
    pub fn get_u32s(&self, addr: u16, num: u16) -> (r: Option<Vec<u32>>)
        requires
            get_many_ok::<u32>(self@, addr, num),
        ensures
            opt_vec_view(r) == get_many_spec::<u32>(self@, addr, num),
    {
        self.get_values::<u32>(addr, num)
    }

    /// The `u32` at `addr` in the entry at offset `ipos`.
    pub fn peek_u32(&self, addr: u16, ipos: usize) -> (r: Option<u32>)
        requires
            peek_ok::<u32>(self@, addr, ipos as nat),
        ensures
            r == peek_spec::<u32>(self@, addr, ipos as nat),
    {
        self.peek_value::<u32>(addr, ipos)
    }

    /// Up to `num` values of type `u32` at `addr` in the entry at offset `ipos`.
    pub fn peek_u32s(&self, addr: u16, num: u16, ipos: usize) -> (r: Option<Vec<u32>>)
        requires
            peek_many_ok::<u32>(self@, addr, num, ipos as nat),
        ensures
            opt_vec_view(r) == peek_many_spec::<u32>(self@, addr, num, ipos as nat),
    {
        self.peek_values::<u32>(addr, num, ipos)
    }

    /// Stores the `u32` value `val` at `addr`.
    pub fn put_u32(&mut self, addr: u16, val: u32)
        ensures
            final(self)@ == old(self)@ + put_spec::<u32>(addr, val),
    {
        self.put_value::<u32>(addr, val)
    }

    /// Stores the `u32` values `vals` from `addr` on.
    pub fn put_u32s(&mut self, addr: u16, vals: &[u32])
        ensures
            final(self)@ == old(self)@ + put_many_spec::<u32>(addr, vals@),
    {
        self.put_values::<u32>(addr, vals)
    }

    /// The single `u64` at `addr`.
    pub fn get_u64(&self, addr: u16) -> (r: Option<u64>)
        requires
            get_ok::<u64>(self@, addr),
        ensures
            r == get_spec::<u64>(self@, addr),
    {
        self.get_value::<u64>(addr)
    }

    /// Up to `num` values of type `u64` at `addr`.
    pub fn get_u64s(&self, addr: u16, num: u16) -> (r: Option<Vec<u64>>)
        requires
            get_many_ok::<u64>(self@, addr, num),
        ensures
            opt_vec_view(r) == get_many_spec::<u64>(self@, addr, num),
    {
        self.get_values::<u64>(addr, num)
    }

    /// The `u64` at `addr` in the entry at offset `ipos`.
    pub fn peek_u64(&self, addr: u16, ipos: usize) -> (r: Option<u64>)
        requires
            peek_ok::<u64>(self@, addr, ipos as nat),
        ensures
            r == peek_spec::<u64>(self@, addr, ipos as nat),
    {
        self.peek_value::<u64>(addr, ipos)
    }

    /// Up to `num` values of type `u64` at `addr` in the entry at offset `ipos`.
    pub fn peek_u64s(&self, addr: u16, num: u16, ipos: usize) -> (r: Option<Vec<u64>>)
        requires
            peek_many_ok::<u64>(self@, addr, num, ipos as nat),
        ensures
            opt_vec_view(r) == peek_many_spec::<u64>(self@, addr, num, ipos as nat),
    {
        self.peek_values::<u64>(addr, num, ipos)
    }

    /// Stores the `u64` value `val` at `addr`.
    pub fn put_u64(&mut self, addr: u16, val: u64)
        ensures
            final(self)@ == old(self)@ + put_spec::<u64>(addr, val),
    {
        self.put_value::<u64>(addr, val)
    }

    /// Stores the `u64` values `vals` from `addr` on.
    pub fn put_u64s(&mut self, addr: u16, vals: &[u64])
        ensures
            final(self)@ == old(self)@ + put_many_spec::<u64>(addr, vals@),
    {
        self.put_values::<u64>(addr, vals)
    }

    /// The bit pattern of the single `f32` at `addr`.  Lookups match on the
    /// width alone, so this is the single `u32` there.
    pub fn get_f32_bits(&self, addr: u16) -> (r: Option<u32>)
        requires
            get_ok::<u32>(self@, addr),
        ensures
            r == get_spec::<u32>(self@, addr),
    {
        self.get_value::<u32>(addr)
    }

    /// The bit patterns of up to `num` values of type `f32` at `addr`.
    pub fn get_f32s_bits(&self, addr: u16, num: u16) -> (r: Option<Vec<u32>>)
        requires
            get_many_ok::<u32>(self@, addr, num),
        ensures
            opt_vec_view(r) == get_many_spec::<u32>(self@, addr, num),
    {
        self.get_values::<u32>(addr, num)
    }

    /// The bit pattern of the `f32` at `addr` in the entry at offset `ipos`.
    pub fn peek_f32_bits(&self, addr: u16, ipos: usize) -> (r: Option<u32>)
        requires
            peek_ok::<u32>(self@, addr, ipos as nat),
        ensures
            r == peek_spec::<u32>(self@, addr, ipos as nat),
    {
        self.peek_value::<u32>(addr, ipos)
    }

    /// The bit patterns of up to `num` values of type `f32` at `addr` in the
    /// entry at offset `ipos`.
    pub fn peek_f32s_bits(&self, addr: u16, num: u16, ipos: usize) -> (r: Option<Vec<u32>>)
        requires
            peek_many_ok::<u32>(self@, addr, num, ipos as nat),
        ensures
            opt_vec_view(r) == peek_many_spec::<u32>(self@, addr, num, ipos as nat),
    {
        self.peek_values::<u32>(addr, num, ipos)
    }

    /// Stores the `f32` whose bit pattern is `bits` at `addr`.
    pub fn put_f32_bits(&mut self, addr: u16, bits: u32)
        ensures
            final(self)@ == old(self)@ + single_entry(KIND_F32, addr, bits as nat, 4),
    {
        self.append_single(KIND_F32, addr, bits as u64, 4)
    }

    /// Stores the `f32` values whose bit patterns are `vals` from `addr` on.
    pub fn put_f32s_bits(&mut self, addr: u16, vals: &[u32])
        ensures
            final(self)@ == old(self)@ + many_entry(KIND_F32, addr, vals@.map_values(|v: u32| v as nat), 4),
    {
        let raws = raws_of_values(vals);
        proof {
            assert(vals@.map_values(|v: u32| v.raw()) =~= vals@.map_values(|v: u32| v as nat));
        }
        self.append_many(KIND_F32, addr, raws.as_slice(), 4);
    }

    /// The bit pattern of the single `f64` at `addr`.  Lookups match on the
    /// width alone, so this is the single `u64` there.
    pub fn get_f64_bits(&self, addr: u16) -> (r: Option<u64>)
        requires
            get_ok::<u64>(self@, addr),
        ensures
            r == get_spec::<u64>(self@, addr),
    {
        self.get_value::<u64>(addr)
    }

    /// The bit patterns of up to `num` values of type `f64` at `addr`.
    pub fn get_f64s_bits(&self, addr: u16, num: u16) -> (r: Option<Vec<u64>>)
        requires
            get_many_ok::<u64>(self@, addr, num),
        ensures
            opt_vec_view(r) == get_many_spec::<u64>(self@, addr, num),
    {
        self.get_values::<u64>(addr, num)
    }

    /// The bit pattern of the `f64` at `addr` in the entry at offset `ipos`.
    pub fn peek_f64_bits(&self, addr: u16, ipos: usize) -> (r: Option<u64>)
        requires
            peek_ok::<u64>(self@, addr, ipos as nat),
        ensures
            r == peek_spec::<u64>(self@, addr, ipos as nat),
    {
        self.peek_value::<u64>(addr, ipos)
    }

    /// The bit patterns of up to `num` values of type `f64` at `addr` in the
    /// entry at offset `ipos`.
    pub fn peek_f64s_bits(&self, addr: u16, num: u16, ipos: usize) -> (r: Option<Vec<u64>>)
        requires
            peek_many_ok::<u64>(self@, addr, num, ipos as nat),
        ensures
            opt_vec_view(r) == peek_many_spec::<u64>(self@, addr, num, ipos as nat),
    {
        self.peek_values::<u64>(addr, num, ipos)
    }

    /// Stores the `f64` whose bit pattern is `bits` at `addr`.
    pub fn put_f64_bits(&mut self, addr: u16, bits: u64)
        ensures
            final(self)@ == old(self)@ + single_entry(KIND_F64, addr, bits as nat, 8),
    {
        self.append_single(KIND_F64, addr, bits as u64, 8)
    }

    /// Stores the `f64` values whose bit patterns are `vals` from `addr` on.
    pub fn put_f64s_bits(&mut self, addr: u16, vals: &[u64])
        ensures
            final(self)@ == old(self)@ + many_entry(KIND_F64, addr, vals@.map_values(|v: u64| v as nat), 8),
    {
        let raws = raws_of_values(vals);
        proof {
            assert(vals@.map_values(|v: u64| v.raw()) =~= vals@.map_values(|v: u64| v as nat));
        }
        self.append_many(KIND_F64, addr, raws.as_slice(), 8);
    }

    /// Appends a one-element entry of `kind` at `addr` holding `raw`.
    fn append_single(&mut self, kind: u8, addr: u16, raw: u64, width: usize)
        requires
            width <= 8,
        ensures
            final(self)@ == old(self)@ + single_entry(kind, addr, raw as nat, width as nat),
    {
        let mut v: Vec<u8> = Vec::new();
        v.push(0);
        v.push(kind);
        push_be(&mut v, addr as u64, 2);
        push_be(&mut v, raw, width);
        assert(v@ =~= single_entry(kind, addr, raw as nat, width as nat));
        buf_extend(&mut self.data, v.as_slice());
    }

    /// Appends an entry of `kind` at `addr` holding the first `put_count`
    /// values of `vals`, when there is at least one.
    fn append_many(&mut self, kind: u8, addr: u16, vals: &[u64], width: usize)
        requires
            width <= 8,
        ensures
            final(self)@ == old(self)@ + many_entry(
                kind,
                addr,
                vals@.map_values(|x: u64| x as nat),
                width as nat,
            ),
    {
        let ghost nats = vals@.map_values(|x: u64| x as nat);
        let m: u32 = 0x10000 - addr as u32;
        let l: u32 = vals.len() as u32;
        let a: u32 = if m <= l {
            m
        } else {
            l
        };
        let n: u32 = if a <= 256 {
            a
        } else {
            256
        };
        assert(n == put_count(addr, nats.len()));
        if n > 0 {
            let mut v: Vec<u8> = Vec::new();
            v.push((n - 1) as u8);
            v.push(kind);
            push_be(&mut v, addr as u64, 2);
            let ghost head = v@;
            let mut i: usize = 0;
            proof {
                assert(nats.take(0) =~= Seq::<nat>::empty());
                assert(v@ =~= head + values_bytes(nats.take(0), width as nat));
            }
            while i < n as usize
                invariant
                    width <= 8,
                    n <= vals@.len(),
                    i <= n,
                    nats == vals@.map_values(|x: u64| x as nat),
                    v@ == head + values_bytes(nats.take(i as int), width as nat),
                decreases n - i,
            {
                push_be(&mut v, vals[i], width);
                proof {
                    assert(nats.take(i + 1).drop_last() =~= nats.take(i as int));
                    assert(v@ =~= head + values_bytes(nats.take(i + 1), width as nat));
                }
                i = i + 1;
            }
            assert(v@ =~= many_entry(kind, addr, nats, width as nat));
            buf_extend(&mut self.data, v.as_slice());
        } else {
            assert(many_entry(kind, addr, nats, width as nat) =~= Seq::<u8>::empty());
            assert(buf_contents(self.data) =~= buf_contents(self.data) + Seq::<u8>::empty());
        }
    }
}

impl Clone for PackedValues {
    fn clone(&self) -> (r: Self)
        ensures
            r@ == self@,
    {
        PackedValues { data: buf_clone(&self.data) }
    }
}

impl Default for PackedValues {
    fn default() -> (r: Self)
        ensures
            r@ == Seq::<u8>::empty(),
    {
        PackedValues::new()
    }
}

/// The text that `String::from_utf8_lossy` makes of the bytes `b`.
pub uninterp spec fn utf8_lossy(b: Seq<u8>) -> Seq<char>;

/// `String::from_utf8_lossy(..).into_owned()`: the contract names the text
/// `utf8_lossy` and claims, as the function's documentation says, that valid
/// UTF-8 is decoded unchanged.  What it makes of invalid bytes is left unsaid
/// beyond the name.
#[verifier::external_body]
fn text_from_bytes(b: &[u8]) -> (s: String)
    ensures
        s@ == utf8_lossy(b@),
        valid_utf8(b@) ==> s@ == decode_utf8(b@),
{
    String::from_utf8_lossy(b).into_owned()
}

/// Appends the bytes `b`.
fn append_bytes(out: &mut Vec<u8>, b: &[u8])
    ensures
        final(out)@ == old(out)@ + b@,
{
    let mut i: usize = 0;
    while i < b.len()
        invariant
            i <= b@.len(),
            out@ == old(out)@ + b@.take(i as int),
        decreases b@.len() - i,
    {
        out.push(b[i]);
        proof {
            assert(b@.take(i + 1) =~= b@.take(i as int).push(b@[i as int]));
        }
        i = i + 1;
    }
    proof {
        assert(b@.take(b@.len() as int) =~= b@);
    }
}

/// The byte strings `parts`, one after the other.
pub open spec fn joined(parts: Seq<Seq<u8>>) -> Seq<u8>
    decreases parts.len(),
{
    if parts.len() == 0 {
        Seq::empty()
    } else {
        joined(parts.drop_last()) + parts.last()
    }
}

/// The bytes of the strings `parts`, one after the other.
fn join_strs(parts: &[&str]) -> (r: Vec<u8>)
    ensures
        r@ == joined(parts@.map_values(|p: &str| p.spec_bytes())),
{
    let mut r: Vec<u8> = Vec::new();
    let mut i: usize = 0;
    while i < parts.len()
        invariant
            i <= parts@.len(),
            r@ == joined(parts@.take(i as int).map_values(|p: &str| p.spec_bytes())),
        decreases parts@.len() - i,
    {
        append_bytes(&mut r, parts[i].as_bytes());
        proof {
            let m = parts@.take(i + 1).map_values(|p: &str| p.spec_bytes());
            assert(m.drop_last() =~= parts@.take(i as int).map_values(|p: &str| p.spec_bytes()));
        }
        i = i + 1;
    }
    proof {
        assert(parts@.take(parts@.len() as int) =~= parts@);
    }
    r
}

/// The byte strings `parts`, one after the other.
fn join_slices(parts: &[&[u8]]) -> (r: Vec<u8>)
    ensures
        r@ == joined(parts@.map_values(|p: &[u8]| p@)),
{
    let mut r: Vec<u8> = Vec::new();
    let mut i: usize = 0;
    while i < parts.len()
        invariant
            i <= parts@.len(),
            r@ == joined(parts@.take(i as int).map_values(|p: &[u8]| p@)),
        decreases parts@.len() - i,
    {
        append_bytes(&mut r, parts[i]);
        proof {
            let m = parts@.take(i + 1).map_values(|p: &[u8]| p@);
            assert(m.drop_last() =~= parts@.take(i as int).map_values(|p: &[u8]| p@));
        }
        i = i + 1;
    }
    proof {
        assert(parts@.take(parts@.len() as int) =~= parts@);
    }
    r
}

impl PackedValues {
    /// The text at `addr`: the bytes of up to 256 `u8` values there, read as
    /// UTF-8; empty when there are none.
    pub fn get_str(&self, addr: u16) -> (r: String)
        requires
            get_many_ok::<u8>(self@, addr, 256),
        ensures
            r@ == (match get_many_spec::<u8>(self@, addr, 256) {
                Some(b) => utf8_lossy(b),
                None => Seq::<char>::empty(),
            }),
            match get_many_spec::<u8>(self@, addr, 256) {
                Some(b) => valid_utf8(b) ==> r@ == decode_utf8(b),
                None => true,
            },
    {
        match self.get_u8s(addr, 256) {
            Some(v) => text_from_bytes(v.as_slice()),
            None => String::new(),
        }
    }

    /// Stores the bytes of the text `val` from `addr` on.
    pub fn put_str(&mut self, addr: u16, val: &str)
        ensures
            final(self)@ == old(self)@ + put_many_spec::<u8>(addr, val.spec_bytes()),
    {
        self.put_u8s(addr, val.as_bytes());
    }

    /// The bytes of the table, to be written in place.
    pub fn as_mut_bytes(&mut self) -> (s: &mut [u8])
        ensures
            s@ == old(self)@,
            final(self)@ == final(s)@,
    {
        buf_as_mut_slice(&mut self.data)
    }

    /// The entries of the table, front to back.
    pub fn items(&self) -> (it: PackedItemIter<'_>)
        ensures
            it.bytes() == self@,
            it.position() == 0,
            it.inv(),
    {
        PackedItemIter::new(self.as_bytes())
    }
}

/// What `dst` holds after the values `src` (if any) are copied over its front.
pub open spec fn copied_over<T>(dst: Seq<T>, src: Option<Seq<T>>) -> Seq<T> {
    match src {
        Some(v) => {
            let n = if v.len() <= dst.len() {
                v.len()
            } else {
                dst.len()
            };
            v.take(n as int) + dst.skip(n as int)
        },
        None => dst,
    }
}

/// Copies as many of `src` as fit over the front of `dst`.
fn copy_over<T: Copy>(dst: &mut [T], src: &Vec<T>)
    ensures
        final(dst)@ == copied_over(old(dst)@, Some(src@)),
{
    let n = if src.len() <= dst.len() {
        src.len()
    } else {
        dst.len()
    };
    let mut i: usize = 0;
    while i < n
        invariant
            n <= src@.len(),
            n <= old(dst)@.len(),
            i <= n,
            dst@.len() == old(dst)@.len(),
            forall|j: int| 0 <= j < i ==> dst@[j] == src@[j],
            forall|j: int| i <= j < dst@.len() ==> dst@[j] == old(dst)@[j],
        decreases n - i,
    {
        dst[i] = src[i];
        i = i + 1;
    }
    proof {
        assert(dst@ =~= copied_over(old(dst)@, Some(src@)));
    }
}

/// Reading values of type `T` from a table.
pub trait PackedValuesRead<T: Copy + Clone> {
    /// Whether looking up the single value at `addr` reads only whole data.
    spec fn can_get(&self, addr: u16) -> bool;

    /// The single value at `addr`, if any.
    spec fn value_at(&self, addr: u16) -> Option<T>;

    /// Whether looking up `num` values at `addr` reads only whole data.
    spec fn can_get_many(&self, addr: u16, num: u16) -> bool;

    /// Up to `num` values at `addr`, if any.
    spec fn values_at(&self, addr: u16, num: u16) -> Option<Seq<T>>;

    /// Whether looking up the value at `addr` in the entry at `ipos` reads only whole data.
    spec fn can_peek(&self, addr: u16, ipos: usize) -> bool;

    /// The value at `addr` in the entry at `ipos`, if any.
    spec fn peeked(&self, addr: u16, ipos: usize) -> Option<T>;

    /// Whether looking up `num` values in the entry at `ipos` reads only whole data.
    spec fn can_peek_many(&self, addr: u16, num: u16, ipos: usize) -> bool;

    /// Up to `num` values at `addr` in the entry at `ipos`, if any.
    spec fn peeked_many(&self, addr: u16, num: u16, ipos: usize) -> Option<Seq<T>>;

    /// The single value at `addr`.
    fn get(&self, addr: u16) -> (r: Option<T>)
        requires
            self.can_get(addr),
        ensures
            r == self.value_at(addr),
    ;

    /// Up to `num` values at `addr`.
    fn get_many(&self, addr: u16, num: u16) -> (r: Option<Vec<T>>)
        requires
            self.can_get_many(addr, num),
        ensures
            opt_vec_view(r) == self.values_at(addr, num),
    ;

    /// Stores the single value at `addr` into `dst`, if there is one.
    fn get_to(&self, addr: u16, dst: &mut T)
        requires
            self.can_get(addr),
        ensures
            *final(dst) == (match self.value_at(addr) {
                Some(v) => v,
                None => *old(dst),
            }),
    {
        match self.get(addr) {
            Some(v) => {
                *dst = v;
            },
            None => {},
        }
    }

    /// Copies the values at `addr` over the front of `dst`, as many as fit.
    fn get_many_to(&self, addr: u16, dst: &mut [T])
        requires
            self.can_get_many(addr, old(dst)@.len() as u16),
        ensures
            final(dst)@ == copied_over(old(dst)@, self.values_at(addr, old(dst)@.len() as u16)),
    {
        match self.get_many(addr, dst.len() as u16) {
            Some(v) => copy_over(dst, &v),
            None => {},
        }
    }

    /// The value at `addr` in the entry at offset `ipos`.
    fn peek(&self, addr: u16, ipos: usize) -> (r: Option<T>)
        requires
            self.can_peek(addr, ipos),
        ensures
            r == self.peeked(addr, ipos),
    ;

    /// Up to `num` values at `addr` in the entry at offset `ipos`.
    fn peek_many(&self, addr: u16, num: u16, ipos: usize) -> (r: Option<Vec<T>>)
        requires
            self.can_peek_many(addr, num, ipos),
        ensures
            opt_vec_view(r) == self.peeked_many(addr, num, ipos),
    ;

    /// Stores the value at `addr` in the entry at `ipos` into `dst`, if there is one.
    fn peek_to(&self, addr: u16, ipos: usize, dst: &mut T)
        requires
            self.can_peek(addr, ipos),
        ensures
            *final(dst) == (match self.peeked(addr, ipos) {
                Some(v) => v,
                None => *old(dst),
            }),
    {
        match self.peek(addr, ipos) {
            Some(v) => {
                *dst = v;
            },
            None => {},
        }
    }

    /// Copies the values at `addr` in the entry at `ipos` over the front of
    /// `dst`, as many as fit.
    fn peek_many_to(&self, addr: u16, ipos: usize, dst: &mut [T])
        requires
            self.can_peek_many(addr, old(dst)@.len() as u16, ipos),
        ensures
            final(dst)@ == copied_over(
                old(dst)@,
                self.peeked_many(addr, old(dst)@.len() as u16, ipos),
            ),
    {
        match self.peek_many(addr, dst.len() as u16, ipos) {
            Some(v) => copy_over(dst, &v),
            None => {},
        }
    }
}

impl<T: PackedScalar> PackedValuesRead<T> for PackedValues {
    open spec fn can_get(&self, addr: u16) -> bool {
        get_ok::<T>(self@, addr)
    }

    open spec fn value_at(&self, addr: u16) -> Option<T> {
        get_spec::<T>(self@, addr)
    }

    open spec fn can_get_many(&self, addr: u16, num: u16) -> bool {
        get_many_ok::<T>(self@, addr, num)
    }

    open spec fn values_at(&self, addr: u16, num: u16) -> Option<Seq<T>> {
        get_many_spec::<T>(self@, addr, num)
    }

    open spec fn can_peek(&self, addr: u16, ipos: usize) -> bool {
        peek_ok::<T>(self@, addr, ipos as nat)
    }

    open spec fn peeked(&self, addr: u16, ipos: usize) -> Option<T> {
        peek_spec::<T>(self@, addr, ipos as nat)
    }

    open spec fn can_peek_many(&self, addr: u16, num: u16, ipos: usize) -> bool {
        peek_many_ok::<T>(self@, addr, num, ipos as nat)
    }

    open spec fn peeked_many(&self, addr: u16, num: u16, ipos: usize) -> Option<Seq<T>> {
        peek_many_spec::<T>(self@, addr, num, ipos as nat)
    }

    fn get(&self, addr: u16) -> (r: Option<T>) {
        self.get_value::<T>(addr)
    }

    fn get_many(&self, addr: u16, num: u16) -> (r: Option<Vec<T>>) {
        self.get_values::<T>(addr, num)
    }

    fn peek(&self, addr: u16, ipos: usize) -> (r: Option<T>) {
        self.peek_value::<T>(addr, ipos)
    }

    fn peek_many(&self, addr: u16, num: u16, ipos: usize) -> (r: Option<Vec<T>>) {
        self.peek_values::<T>(addr, num, ipos)
    }
}

/// Writing values of type `T` into a table.
pub trait PackedValuesWrite<T> {
    /// Stores the single value `val` at `addr`.
    fn put(&mut self, addr: u16, val: T);

    /// Stores the values `vals` from `addr` on.
    fn put_many(&mut self, addr: u16, vals: &[T]);
}

impl<T: PackedScalar> PackedValuesWrite<T> for PackedValues {
    fn put(&mut self, addr: u16, val: T)
        ensures
            final(self)@ == old(self)@ + put_spec::<T>(addr, val),
    {
        self.put_value::<T>(addr, val)
    }

    fn put_many(&mut self, addr: u16, vals: &[T])
        ensures
            final(self)@ == old(self)@ + put_many_spec::<T>(addr, vals@),
    {
        self.put_values::<T>(addr, vals)
    }
}

impl<'a> PackedValuesWrite<&'a str> for PackedValues {
    /// Stores the bytes of the text `val` from `addr` on.
    fn put(&mut self, addr: u16, val: &'a str)
        ensures
            final(self)@ == old(self)@ + put_many_spec::<u8>(addr, val.spec_bytes()),
    {
        self.put_u8s(addr, val.as_bytes());
    }

    /// Stores the bytes of the texts `vals`, one after the other, from `addr` on.
    fn put_many(&mut self, addr: u16, vals: &[&'a str])
        ensures
            final(self)@ == old(self)@ + put_many_spec::<u8>(
                addr,
                joined(vals@.map_values(|p: &str| p.spec_bytes())),
            ),
    {
        let joined = join_strs(vals);
        self.put_u8s(addr, joined.as_slice());
    }
}

impl<'a> PackedValuesWrite<&'a [u8]> for PackedValues {
    /// Stores the bytes `val` from `addr` on.
    fn put(&mut self, addr: u16, val: &'a [u8])
        ensures
            final(self)@ == old(self)@ + put_many_spec::<u8>(addr, val@),
    {
        self.put_u8s(addr, val);
    }

    /// Stores the byte strings `vals`, one after the other, from `addr` on.
    fn put_many(&mut self, addr: u16, vals: &[&'a [u8]])
        ensures
            final(self)@ == old(self)@ + put_many_spec::<u8>(
                addr,
                joined(vals@.map_values(|p: &[u8]| p@)),
            ),
    {
        let joined = join_slices(vals);
        self.put_u8s(addr, joined.as_slice());
    }
}

/// The type of the values of an entry, as its kind code names it.
#[derive(Copy, Clone, Debug, PartialEq, Eq, Structural)]
pub enum PackedValueKind {
    I8,
    I16,
    I32,
    I64,
    U8,
    U16,
    U32,
    U64,
    F32,
    F64,
    Unknown,
}

impl PackedValueKind {
    /// The kind that a code names; codes that name none give `Unknown`.
    pub open spec fn from_code(v: u8) -> PackedValueKind {
        if v == KIND_I8 {
            PackedValueKind::I8
        } else if v == KIND_I16 {
            PackedValueKind::I16
        } else if v == KIND_I32 {
            PackedValueKind::I32
        } else if v == KIND_I64 {
            PackedValueKind::I64
        } else if v == KIND_U8 {
            PackedValueKind::U8
        } else if v == KIND_U16 {
            PackedValueKind::U16
        } else if v == KIND_U32 {
            PackedValueKind::U32
        } else if v == KIND_U64 {
            PackedValueKind::U64
        } else if v == KIND_F32 {
            PackedValueKind::F32
        } else if v == KIND_F64 {
            PackedValueKind::F64
        } else {
            PackedValueKind::Unknown
        }
    }

    /// The code of a kind; `Unknown` is written as zero.
    pub open spec fn code(self) -> u8 {
        match self {
            PackedValueKind::I8 => KIND_I8,
            PackedValueKind::I16 => KIND_I16,
            PackedValueKind::I32 => KIND_I32,
            PackedValueKind::I64 => KIND_I64,
            PackedValueKind::U8 => KIND_U8,
            PackedValueKind::U16 => KIND_U16,
            PackedValueKind::U32 => KIND_U32,
            PackedValueKind::U64 => KIND_U64,
            PackedValueKind::F32 => KIND_F32,
            PackedValueKind::F64 => KIND_F64,
            PackedValueKind::Unknown => 0,
        }
    }

    fn of_code(val: u8) -> (r: PackedValueKind)
        ensures
            r == PackedValueKind::from_code(val),
    {
        if val == KIND_I8 {
            PackedValueKind::I8
        } else if val == KIND_I16 {
            PackedValueKind::I16
        } else if val == KIND_I32 {
            PackedValueKind::I32
        } else if val == KIND_I64 {
            PackedValueKind::I64
        } else if val == KIND_U8 {
            PackedValueKind::U8
        } else if val == KIND_U16 {
            PackedValueKind::U16
        } else if val == KIND_U32 {
            PackedValueKind::U32
        } else if val == KIND_U64 {
            PackedValueKind::U64
        } else if val == KIND_F32 {
            PackedValueKind::F32
        } else if val == KIND_F64 {
            PackedValueKind::F64
        } else {
            PackedValueKind::Unknown
        }
    }

    fn to_code(self) -> (r: u8)
        ensures
            r == self.code(),
    {
        match self {
            PackedValueKind::I8 => KIND_I8,
            PackedValueKind::I16 => KIND_I16,
            PackedValueKind::I32 => KIND_I32,
            PackedValueKind::I64 => KIND_I64,
            PackedValueKind::U8 => KIND_U8,
            PackedValueKind::U16 => KIND_U16,
            PackedValueKind::U32 => KIND_U32,
            PackedValueKind::U64 => KIND_U64,
            PackedValueKind::F32 => KIND_F32,
            PackedValueKind::F64 => KIND_F64,
            PackedValueKind::Unknown => 0,
        }
    }
}

impl From<u8> for PackedValueKind {
    fn from(val: u8) -> (r: Self) {
        PackedValueKind::of_code(val)
    }
}

impl vstd::std_specs::convert::FromSpecImpl<u8> for PackedValueKind {
    open spec fn obeys_from_spec() -> bool {
        true
    }

    open spec fn from_spec(val: u8) -> Self {
        PackedValueKind::from_code(val)
    }
}

impl From<PackedValueKind> for u8 {
    fn from(val: PackedValueKind) -> (r: Self) {
        val.to_code()
    }
}

impl vstd::std_specs::convert::FromSpecImpl<PackedValueKind> for u8 {
    open spec fn obeys_from_spec() -> bool {
        true
    }

    open spec fn from_spec(val: PackedValueKind) -> Self {
        val.code()
    }
}

/// An entry of a table, as the iterator describes it.
#[derive(Copy, Clone, Debug, PartialEq, Eq, Structural)]
pub struct PackedItem {
    /// The address of the first element.
    pub addr: u16,
    /// The kind code.
    pub kind: u8,
    /// The number of elements.
    pub elms: u16,
    /// The offset of the entry in the table.
    pub ipos: u64,
}

/// The entry that starts at `pos` in `d`.
pub open spec fn item_at(d: Seq<u8>, pos: nat) -> PackedItem {
    let e = d.subrange(pos as int, d.len() as int);
    PackedItem {
        addr: entry_addr(e) as u16,
        kind: e[1],
        elms: entry_elms(e) as u16,
        ipos: pos as u64,
    }
}

impl PackedItem {
    pub fn addr(&self) -> (r: u16)
        ensures
            r == self.addr,
    {
        self.addr
    }

    /// The kind that the entry's kind code names.
    pub fn kind(&self) -> (r: PackedValueKind)
        ensures
            r == PackedValueKind::from_code(self.kind),
    {
        PackedValueKind::of_code(self.kind)
    }

    pub fn elms(&self) -> (r: u16)
        ensures
            r == self.elms,
    {
        self.elms
    }

    pub fn ipos(&self) -> (r: u64)
        ensures
            r == self.ipos,
    {
        self.ipos
    }
}

/// Copying the values of an entry into a destination of type `T`.
pub trait PackedItemMapTo<T: ?Sized> {
    /// Whether mapping reads only whole data of `pv`, for the destination `dst`.
    spec fn can_map(&self, pv: &PackedValues, dst: &T) -> bool;

    /// Whether `after` is what mapping makes of the destination `before`.
    spec fn maps(&self, pv: &PackedValues, before: &T, after: &T) -> bool;

    /// Copies the entry's values found in `pv` into `dst`, if there are any.
    fn map_to(&self, pv: &PackedValues, dst: &mut T)
        requires
            self.can_map(pv, &*old(dst)),
        ensures
            self.maps(pv, &*old(dst), &*final(dst)),
    ;
}

impl PackedItem {
    /// Stores the `i8` this entry holds in `pv` into `dst`, if there is one.
    pub fn map_to_i8(&self, pv: &PackedValues, dst: &mut i8)
        requires
            peek_ok::<i8>(pv@, self.addr, (self.ipos as usize) as nat),
        ensures
            *final(dst) == (match peek_spec::<i8>(pv@, self.addr, (self.ipos as usize) as nat) {
                Some(v) => v,
                None => *old(dst),
            }),
    {
        pv.peek_to(self.addr, self.ipos as usize, dst)
    }

    /// Copies the `i8` values this entry holds in `pv` over the front of `dst`.
    pub fn map_to_i8s(&self, pv: &PackedValues, dst: &mut [i8])
        requires
            peek_many_ok::<i8>(pv@, self.addr, old(dst)@.len() as u16, (self.ipos as usize) as nat),
        ensures
            final(dst)@ == copied_over(
                old(dst)@,
                peek_many_spec::<i8>(pv@, self.addr, old(dst)@.len() as u16, (self.ipos as usize) as nat),
            ),
    {
        pv.peek_many_to(self.addr, self.ipos as usize, dst)
    }

    /// Stores the `i16` this entry holds in `pv` into `dst`, if there is one.
    pub fn map_to_i16(&self, pv: &PackedValues, dst: &mut i16)
        requires
            peek_ok::<i16>(pv@, self.addr, (self.ipos as usize) as nat),
        ensures
            *final(dst) == (match peek_spec::<i16>(pv@, self.addr, (self.ipos as usize) as nat) {
                Some(v) => v,
                None => *old(dst),
            }),
    {
        pv.peek_to(self.addr, self.ipos as usize, dst)
    }

    /// Copies the `i16` values this entry holds in `pv` over the front of `dst`.
    pub fn map_to_i16s(&self, pv: &PackedValues, dst: &mut [i16])
        requires
            peek_many_ok::<i16>(pv@, self.addr, old(dst)@.len() as u16, (self.ipos as usize) as nat),
        ensures
            final(dst)@ == copied_over(
                old(dst)@,
                peek_many_spec::<i16>(pv@, self.addr, old(dst)@.len() as u16, (self.ipos as usize) as nat),
            ),
    {
        pv.peek_many_to(self.addr, self.ipos as usize, dst)
    }

    /// Stores the `i32` this entry holds in `pv` into `dst`, if there is one.
    pub fn map_to_i32(&self, pv: &PackedValues, dst: &mut i32)
        requires
            peek_ok::<i32>(pv@, self.addr, (self.ipos as usize) as nat),
        ensures
            *final(dst) == (match peek_spec::<i32>(pv@, self.addr, (self.ipos as usize) as nat) {
                Some(v) => v,
                None => *old(dst),
            }),
    {
        pv.peek_to(self.addr, self.ipos as usize, dst)
    }

    /// Copies the `i32` values this entry holds in `pv` over the front of `dst`.
    pub fn map_to_i32s(&self, pv: &PackedValues, dst: &mut [i32])
        requires
            peek_many_ok::<i32>(pv@, self.addr, old(dst)@.len() as u16, (self.ipos as usize) as nat),
        ensures
            final(dst)@ == copied_over(
                old(dst)@,
                peek_many_spec::<i32>(pv@, self.addr, old(dst)@.len() as u16, (self.ipos as usize) as nat),
            ),
    {
        pv.peek_many_to(self.addr, self.ipos as usize, dst)
    }

    /// Stores the `i64` this entry holds in `pv` into `dst`, if there is one.
    pub fn map_to_i64(&self, pv: &PackedValues, dst: &mut i64)
        requires
            peek_ok::<i64>(pv@, self.addr, (self.ipos as usize) as nat),
        ensures
            *final(dst) == (match peek_spec::<i64>(pv@, self.addr, (self.ipos as usize) as nat) {
                Some(v) => v,
                None => *old(dst),
            }),
    {
        pv.peek_to(self.addr, self.ipos as usize, dst)
    }

    /// Copies the `i64` values this entry holds in `pv` over the front of `dst`.
    pub fn map_to_i64s(&self, pv: &PackedValues, dst: &mut [i64])
        requires
            peek_many_ok::<i64>(pv@, self.addr, old(dst)@.len() as u16, (self.ipos as usize) as nat),
        ensures
            final(dst)@ == copied_over(
                old(dst)@,
                peek_many_spec::<i64>(pv@, self.addr, old(dst)@.len() as u16, (self.ipos as usize) as nat),
            ),
    {
        pv.peek_many_to(self.addr, self.ipos as usize, dst)
    }

    /// Stores the `u8` this entry holds in `pv` into `dst`, if there is one.
    pub fn map_to_u8(&self, pv: &PackedValues, dst: &mut u8)
        requires
            peek_ok::<u8>(pv@, self.addr, (self.ipos as usize) as nat),
        ensures
            *final(dst) == (match peek_spec::<u8>(pv@, self.addr, (self.ipos as usize) as nat) {
                Some(v) => v,
                None => *old(dst),
            }),
    {
        pv.peek_to(self.addr, self.ipos as usize, dst)
    }

    /// Copies the `u8` values this entry holds in `pv` over the front of `dst`.
    pub fn map_to_u8s(&self, pv: &PackedValues, dst: &mut [u8])
        requires
            peek_many_ok::<u8>(pv@, self.addr, old(dst)@.len() as u16, (self.ipos as usize) as nat),
        ensures
            final(dst)@ == copied_over(
                old(dst)@,
                peek_many_spec::<u8>(pv@, self.addr, old(dst)@.len() as u16, (self.ipos as usize) as nat),
            ),
    {
        pv.peek_many_to(self.addr, self.ipos as usize, dst)
    }

    /// Stores the `u16` this entry holds in `pv` into `dst`, if there is one.
    pub fn map_to_u16(&self, pv: &PackedValues, dst: &mut u16)
        requires
            peek_ok::<u16>(pv@, self.addr, (self.ipos as usize) as nat),
        ensures
            *final(dst) == (match peek_spec::<u16>(pv@, self.addr, (self.ipos as usize) as nat) {
                Some(v) => v,
                None => *old(dst),
            }),
    {
        pv.peek_to(self.addr, self.ipos as usize, dst)
    }

    /// Copies the `u16` values this entry holds in `pv` over the front of `dst`.
    pub fn map_to_u16s(&self, pv: &PackedValues, dst: &mut [u16])
        requires
            peek_many_ok::<u16>(pv@, self.addr, old(dst)@.len() as u16, (self.ipos as usize) as nat),
        ensures
            final(dst)@ == copied_over(
                old(dst)@,
                peek_many_spec::<u16>(pv@, self.addr, old(dst)@.len() as u16, (self.ipos as usize) as nat),
            ),
    {
        pv.peek_many_to(self.addr, self.ipos as usize, dst)
    }

    /// Stores the `u32` this entry holds in `pv` into `dst`, if there is one.
    pub fn map_to_u32(&self, pv: &PackedValues, dst: &mut u32)
        requires
            peek_ok::<u32>(pv@, self.addr, (self.ipos as usize) as nat),
        ensures
            *final(dst) == (match peek_spec::<u32>(pv@, self.addr, (self.ipos as usize) as nat) {
                Some(v) => v,
                None => *old(dst),
            }),
    {
        pv.peek_to(self.addr, self.ipos as usize, dst)
    }

    /// Copies the `u32` values this entry holds in `pv` over the front of `dst`.
    pub fn map_to_u32s(&self, pv: &PackedValues, dst: &mut [u32])
        requires
            peek_many_ok::<u32>(pv@, self.addr, old(dst)@.len() as u16, (self.ipos as usize) as nat),
        ensures
            final(dst)@ == copied_over(
                old(dst)@,
                peek_many_spec::<u32>(pv@, self.addr, old(dst)@.len() as u16, (self.ipos as usize) as nat),
            ),
    {
        pv.peek_many_to(self.addr, self.ipos as usize, dst)
    }

    /// Stores the `u64` this entry holds in `pv` into `dst`, if there is one.
    pub fn map_to_u64(&self, pv: &PackedValues, dst: &mut u64)
        requires
            peek_ok::<u64>(pv@, self.addr, (self.ipos as usize) as nat),
        ensures
            *final(dst) == (match peek_spec::<u64>(pv@, self.addr, (self.ipos as usize) as nat) {
                Some(v) => v,
                None => *old(dst),
            }),
    {
        pv.peek_to(self.addr, self.ipos as usize, dst)
    }

    /// Copies the `u64` values this entry holds in `pv` over the front of `dst`.
    pub fn map_to_u64s(&self, pv: &PackedValues, dst: &mut [u64])
        requires
            peek_many_ok::<u64>(pv@, self.addr, old(dst)@.len() as u16, (self.ipos as usize) as nat),
        ensures
            final(dst)@ == copied_over(
                old(dst)@,
                peek_many_spec::<u64>(pv@, self.addr, old(dst)@.len() as u16, (self.ipos as usize) as nat),
            ),
    {
        pv.peek_many_to(self.addr, self.ipos as usize, dst)
    }
}

impl<T: PackedScalar> PackedItemMapTo<T> for PackedItem {
    open spec fn can_map(&self, pv: &PackedValues, dst: &T) -> bool {
        peek_ok::<T>(pv@, self.addr, (self.ipos as usize) as nat)
    }

    open spec fn maps(&self, pv: &PackedValues, before: &T, after: &T) -> bool {
        *after == (match peek_spec::<T>(pv@, self.addr, (self.ipos as usize) as nat) {
            Some(v) => v,
            None => *before,
        })
    }

    fn map_to(&self, pv: &PackedValues, dst: &mut T) {
        pv.peek_to(self.addr, self.ipos as usize, dst)
    }
}

impl<T: PackedScalar> PackedItemMapTo<[T]> for PackedItem {
    open spec fn can_map(&self, pv: &PackedValues, dst: &[T]) -> bool {
        peek_many_ok::<T>(pv@, self.addr, dst@.len() as u16, (self.ipos as usize) as nat)
    }

    open spec fn maps(&self, pv: &PackedValues, before: &[T], after: &[T]) -> bool {
        after@ == copied_over(
            before@,
            peek_many_spec::<T>(pv@, self.addr, before@.len() as u16, (self.ipos as usize) as nat),
        )
    }

    fn map_to(&self, pv: &PackedValues, dst: &mut [T]) {
        pv.peek_many_to(self.addr, self.ipos as usize, dst)
    }
}

/// Walks the entries of a table front to back.
pub struct PackedItemIter<'a> {
    data: &'a [u8],
    pos: usize,
}

impl<'a> PackedItemIter<'a> {
    /// The table being walked.
    pub closed spec fn bytes(&self) -> Seq<u8> {
        self.data@
    }

    /// The offset of the next entry.
    pub closed spec fn position(&self) -> nat {
        self.pos as nat
    }

    /// The position lies within the table.
    pub closed spec fn inv(&self) -> bool {
        self.pos <= self.data@.len()
    }

    /// Whether the next step reads only whole data: the walk is over, or a
    /// whole entry follows.
    pub open spec fn can_step(&self) -> bool {
        self.position() >= self.bytes().len() || entry_complete(
            self.bytes().subrange(self.position() as int, self.bytes().len() as int),
        )
    }

    /// A walk from the front of `data`.
    pub fn new(data: &'a [u8]) -> (it: Self)
        ensures
            it.bytes() == data@,
            it.position() == 0,
            it.inv(),
    {
        PackedItemIter { data, pos: 0 }
    }

    /// Whether the next step reads only whole data.
    pub fn step_ok(&self) -> (r: bool)
        requires
            self.inv(),
        ensures
            r == self.can_step(),
    {
        let len = self.data.len();
        if self.pos >= len {
            return true;
        }
        let rem = len - self.pos;
        if rem < 4 {
            return false;
        }
        let ghost e = self.data@.subrange(self.pos as int, len as int);
        let n = self.data[self.pos];
        let k = self.data[self.pos + 1];
        let w = (k & 0x0f) as usize;
        proof {
            lemma_low_nibble(k);
            assert((n as nat + 1) * (w as nat) <= 256 * 15) by (nonlinear_arith)
                requires
                    n < 256,
                    w < 16,
            ;
        }
        assert(e[0] == n && e[1] == k);
        rem >= 4 + (n as usize + 1) * w
    }

    /// The next entry, or `None` at the end.
    pub fn next(&mut self) -> (r: Option<PackedItem>)
        requires
            old(self).inv(),
            old(self).can_step(),
        ensures
            final(self).inv(),
            final(self).bytes() == old(self).bytes(),
            old(self).position() >= old(self).bytes().len() ==> r is None && final(self).position()
                == old(self).position(),
            old(self).position() < old(self).bytes().len() ==> {
                &&& r == Some(item_at(old(self).bytes(), old(self).position()))
                &&& final(self).position() == old(self).position() + entry_len(
                    old(self).bytes().subrange(
                        old(self).position() as int,
                        old(self).bytes().len() as int,
                    ),
                )
            },
    {
        let len = self.data.len();
        if self.pos >= len {
            return None;
        }
        let ghost e = self.data@.subrange(self.pos as int, len as int);
        let ipos = self.pos;
        let n = self.data[ipos];
        let k = self.data[ipos + 1];
        let w = (k & 0x0f) as usize;
        let addr = read_be(self.data, ipos + 2, 2) as u16;
        proof {
            lemma_low_nibble(k);
            assert(e.subrange(2, 4) =~= self.data@.subrange(ipos + 2, ipos + 4));
            assert((n as nat + 1) * (w as nat) <= 256 * 15) by (nonlinear_arith)
                requires
                    n < 256,
                    w < 16,
            ;
        }
        assert(e[0] == n && e[1] == k);
        let elen = 4 + (n as usize + 1) * w;
        assert(entry_len(e) == elen);
        self.pos = ipos + elen;
        Some(PackedItem { addr, kind: k, elms: n as u16 + 1, ipos: ipos as u64 })
    }
}

proof fn lemma_entry_prefix(d: Seq<u8>, x: Seq<u8>)
    requires
        d.len() >= 4,
    ensures
        (d + x)[0] == d[0],
        (d + x)[1] == d[1],
        entry_width(d + x) == entry_width(d),
        entry_addr(d + x) == entry_addr(d),
        entry_elms(d + x) == entry_elms(d),
        entry_len(d + x) == entry_len(d),
{
    assert((d + x).subrange(2, 4) =~= d.subrange(2, 4));
}

proof fn lemma_elements_prefix(d: Seq<u8>, x: Seq<u8>, width: nat, cnt: nat)
    requires
        d.len() >= 4 + cnt * width,
    ensures
        elements(d + x, width, cnt) == elements(d, width, cnt),
{
    assert forall|i: int| 0 <= i < cnt implies element(d + x, width, i) == element(d, width, i) by {
        assert(i * width + width <= cnt * width) by (nonlinear_arith)
            requires
                0 <= i < cnt,
        ;
        assert((d + x).subrange(4 + i * width, 4 + i * width + width) =~= d.subrange(
            4 + i * width,
            4 + i * width + width,
        ));
    }
    assert(elements(d + x, width, cnt) =~= elements(d, width, cnt));
}

proof fn lemma_single_len(d: Seq<u8>)
    requires
        d.len() >= 2,
        d[0] == 0,
    ensures
        entry_len(d) == 4 + entry_width(d),
        entry_width(d) * entry_elms(d) == entry_width(d),
{
    assert(entry_elms(d) == 1);
    assert(entry_elms(d) * entry_width(d) == entry_width(d)) by (nonlinear_arith)
        requires
            entry_elms(d) == 1,
    ;
    assert(entry_width(d) * entry_elms(d) == entry_width(d)) by (nonlinear_arith)
        requires
            entry_elms(d) == 1,
    ;
}

/// A lookup in a table followed by more bytes finds what it finds in the
/// table, and when that is nothing, what it finds in the bytes that follow.
pub proof fn lemma_find_one_append(d: Seq<u8>, x: Seq<u8>, addr: u16, width: nat)
    requires
        !(find_one(d, addr, width) is Truncated),
    ensures
        find_one(d + x, addr, width) == (if find_one(d, addr, width) is Absent {
            find_one(x, addr, width)
        } else {
            find_one(d, addr, width)
        }),
    decreases d.len(),
{
    if d.len() == 0 {
        assert(d + x =~= x);
    } else {
        lemma_entry_prefix(d, x);
        let dx = d + x;
        if entry_width(d) == width && d[0] == 0 && entry_addr(d) == addr {
            lemma_single_len(d);
            lemma_elements_prefix(d, x, width, 1);
            assert(element(dx, width, 0) == elements(dx, width, 1)[0]);
            assert(element(d, width, 0) == elements(d, width, 1)[0]);
        } else {
            assert(after_entry(dx) =~= after_entry(d) + x);
            lemma_find_one_append(after_entry(d), x, addr, width);
        }
    }
}

/// A lookup of many values in a table followed by more bytes finds what it
/// finds in the table, and when that is nothing, what it finds in the bytes
/// that follow.
pub proof fn lemma_find_many_append(d: Seq<u8>, x: Seq<u8>, addr: u16, width: nat, num: u16)
    requires
        !(find_many(d, addr, width, num) is Truncated),
    ensures
        find_many(d + x, addr, width, num) == (if find_many(d, addr, width, num) is Absent {
            find_many(x, addr, width, num)
        } else {
            find_many(d, addr, width, num)
        }),
    decreases d.len(),
{
    if num == 0 {
    } else if d.len() == 0 {
        assert(d + x =~= x);
    } else {
        lemma_entry_prefix(d, x);
        let dx = d + x;
        if entry_width(d) == width && entry_addr(d) == addr {
            let cnt = many_count(d[0], num);
            lemma_elements_prefix(d, x, width, cnt);
        } else {
            assert(after_entry(dx) =~= after_entry(d) + x);
            lemma_find_many_append(after_entry(d), x, addr, width, num);
        }
    }
}

/// The bytes of `n` values, `width` bytes each: their number, and where each
/// value stands.
pub proof fn lemma_values_bytes(vals: Seq<nat>, width: nat)
    requires
        forall|i: int| 0 <= i < vals.len() ==> #[trigger] vals[i] < pow256(width),
    ensures
        values_bytes(vals, width).len() == vals.len() * width,
        forall|i: int|
            0 <= i < vals.len() ==> be_value(
                #[trigger] values_bytes(vals, width).subrange(i * width, i * width + width),
            ) == vals[i],
    decreases vals.len(),
{
    if vals.len() > 0 {
        let front = vals.drop_last();
        lemma_values_bytes(front, width);
        lemma_be_value_of_bytes(vals.last(), width);
        let b = values_bytes(vals, width);
        let fb = values_bytes(front, width);
        assert(b == fb + be_bytes(vals.last(), width));
        assert(b.len() == vals.len() * width) by (nonlinear_arith)
            requires
                b.len() == fb.len() + width,
                fb.len() == (vals.len() - 1) * width,
        ;
        assert forall|i: int| 0 <= i < vals.len() implies be_value(
            #[trigger] b.subrange(i * width, i * width + width),
        ) == vals[i] by {
            if i < vals.len() - 1 {
                assert(i * width + width <= (vals.len() - 1) * width) by (nonlinear_arith)
                    requires
                        0 <= i < vals.len() - 1,
                ;
                assert(b.subrange(i * width, i * width + width) =~= fb.subrange(
                    i * width,
                    i * width + width,
                ));
                assert(front[i] == vals[i]);
            } else {
                assert(i * width == (vals.len() - 1) * width);
                assert(b.subrange(i * width, i * width + width) =~= be_bytes(vals.last(), width));
            }
        }
    }
}

/// A one-element entry is found by a lookup of its address and width.
pub proof fn lemma_find_single_entry(kind: u8, addr: u16, raw: nat, width: nat)
    requires
        kind % 16 == width,
        raw < pow256(width),
    ensures
        find_one(single_entry(kind, addr, raw, width), addr, width) == Scan::Found(raw),
        well_formed(single_entry(kind, addr, raw, width)),
        entry_len(single_entry(kind, addr, raw, width)) == single_entry(kind, addr, raw, width).len(),
        single_entry(kind, addr, raw, width).len() == 4 + width,
        single_entry(kind, addr, raw, width)[0] == 0,
        single_entry(kind, addr, raw, width)[1] == kind,
        entry_addr(single_entry(kind, addr, raw, width)) == addr,
        element(single_entry(kind, addr, raw, width), width, 0) == raw,
{
    let s = single_entry(kind, addr, raw, width);
    lemma_pow256_values();
    lemma_be_value_of_bytes(addr as nat, 2);
    lemma_be_value_of_bytes(raw, width);
    assert(s.subrange(2, 4) =~= be_bytes(addr as nat, 2));
    assert(s.subrange(4, (4 + width) as int) =~= be_bytes(raw, width));
    lemma_single_len(s);
    assert(after_entry(s) =~= Seq::<u8>::empty());
    assert(well_formed(after_entry(s)));
}

/// An entry of stored values is found by a lookup of many values at its
/// address and width, which gives its first `many_count` values.
pub proof fn lemma_find_many_entry(kind: u8, addr: u16, vals: Seq<nat>, width: nat, num: u16)
    requires
        kind % 16 == width,
        num > 0,
        put_count(addr, vals.len()) > 0,
        forall|i: int| 0 <= i < vals.len() ==> #[trigger] vals[i] < pow256(width),
    ensures
        find_many(many_entry(kind, addr, vals, width), addr, width, num) == Scan::Found(
            vals.take(many_count((put_count(addr, vals.len()) - 1) as u8, num) as int),
        ),
        well_formed(many_entry(kind, addr, vals, width)),
{
    let n = put_count(addr, vals.len());
    let vt = vals.take(n as int);
    let s = many_entry(kind, addr, vals, width);
    lemma_pow256_values();
    lemma_be_value_of_bytes(addr as nat, 2);
    lemma_values_bytes(vt, width);
    let vb = values_bytes(vt, width);
    assert(s == seq![(n - 1) as u8, kind] + be_bytes(addr as nat, 2) + vb);
    assert(s.subrange(2, 4) =~= be_bytes(addr as nat, 2));
    assert(s[0] == (n - 1) as u8);
    assert(entry_elms(s) == n);
    assert(s.len() == 4 + n * width);
    assert(entry_len(s) == s.len());
    let cnt = many_count((n - 1) as u8, num);
    assert(cnt <= n);
    assert(cnt * width <= n * width) by (nonlinear_arith)
        requires
            cnt <= n,
    ;
    let found = elements(s, width, cnt);
    assert forall|i: int| 0 <= i < cnt implies #[trigger] found[i] == vals.take(cnt as int)[i] by {
        assert(i * width + width <= n * width) by (nonlinear_arith)
            requires
                0 <= i < cnt,
                cnt <= n,
        ;
        assert(s.subrange(4 + i * width, 4 + i * width + width) =~= vb.subrange(
            i * width,
            i * width + width,
        ));
        assert(vt[i] == vals[i]);
    }
    assert(found =~= vals.take(cnt as int));
    assert(after_entry(s) =~= Seq::<u8>::empty());
    assert(well_formed(after_entry(s)));
}

/// Following a table of whole entries with more bytes gives a table of whole
/// entries exactly when those bytes are whole entries.
pub proof fn lemma_well_formed_append(d: Seq<u8>, x: Seq<u8>)
    requires
        well_formed(d),
    ensures
        well_formed(d + x) == well_formed(x),
    decreases d.len(),
{
    if d.len() == 0 {
        assert(d + x =~= x);
    } else {
        lemma_entry_prefix(d, x);
        assert(after_entry(d + x) =~= after_entry(d) + x);
        lemma_well_formed_append(after_entry(d), x);
    }
}

/// In a table of whole entries no lookup runs off the end.
pub proof fn lemma_well_formed_lookups(d: Seq<u8>, addr: u16, width: nat, num: u16)
    requires
        well_formed(d),
    ensures
        !(find_one(d, addr, width) is Truncated),
        !(find_many(d, addr, width, num) is Truncated),
    decreases d.len(),
{
    if d.len() > 0 {
        if num > 0 && entry_width(d) == width && entry_addr(d) == addr {
            let cnt = many_count(d[0], num);
            assert(cnt * width <= entry_elms(d) * width) by (nonlinear_arith)
                requires
                    cnt <= entry_elms(d),
            ;
        }
        lemma_well_formed_lookups(after_entry(d), addr, width, num);
    }
}

/// Reading back a value just stored: when nothing at `addr` of `T`'s width
/// was there before, the value is found.
pub proof fn lemma_get_after_put<T: PackedScalar>(d: Seq<u8>, addr: u16, val: T)
    requires
        find_one(d, addr, T::spec_width()) is Absent,
    ensures
        get_ok::<T>(d + put_spec::<T>(addr, val), addr),
        get_spec::<T>(d + put_spec::<T>(addr, val), addr) == Some(val),
{
    T::lemma_raw(val);
    lemma_find_one_append(d, put_spec::<T>(addr, val), addr, T::spec_width());
    lemma_find_single_entry(T::spec_kind(), addr, val.raw(), T::spec_width());
}

/// Storing never changes what a lookup already finds: the first match wins.
pub proof fn lemma_put_keeps_found<T: PackedScalar>(d: Seq<u8>, x: Seq<u8>, addr: u16)
    requires
        find_one(d, addr, T::spec_width()) is Found,
    ensures
        get_spec::<T>(d + x, addr) == get_spec::<T>(d, addr),
{
    lemma_find_one_append(d, x, addr, T::spec_width());
}

/// Reading back values just stored: when no entry at `addr` of `T`'s width
/// was there before and at least one value was stored, a lookup of `num > 0`
/// values gives as many of them as were stored, but no more than `num`.
pub proof fn lemma_get_many_after_put_many<T: PackedScalar>(
    d: Seq<u8>,
    addr: u16,
    vals: Seq<T>,
    num: u16,
)
    requires
        find_many(d, addr, T::spec_width(), num) is Absent,
        num > 0,
        put_count(addr, vals.len()) > 0,
    ensures
        get_many_ok::<T>(d + put_many_spec::<T>(addr, vals), addr, num),
        get_many_spec::<T>(d + put_many_spec::<T>(addr, vals), addr, num) == Some(
            vals.take(
                (if put_count(addr, vals.len()) <= num {
                    put_count(addr, vals.len())
                } else {
                    num as nat
                }) as int,
            ),
        ),
{
    let raws = vals.map_values(|v: T| v.raw());
    assert forall|i: int| 0 <= i < raws.len() implies #[trigger] raws[i] < pow256(
        T::spec_width(),
    ) by {
        T::lemma_raw(vals[i]);
    }
    if vals.len() > 0 {
        T::lemma_raw(vals[0]);
    }
    lemma_find_many_append(d, put_many_spec::<T>(addr, vals), addr, T::spec_width(), num);
    lemma_find_many_entry(T::spec_kind(), addr, raws, T::spec_width(), num);
    let cnt = many_count((put_count(addr, vals.len()) - 1) as u8, num);
    let got = raws.take(cnt as int).map_values(|v: nat| T::from_raw(v));
    assert forall|i: int| 0 <= i < cnt implies #[trigger] got[i] == vals.take(cnt as int)[i] by {
        T::lemma_raw(vals[i]);
    }
    assert(got =~= vals.take(cnt as int));
}

/// Storing no values adds nothing.
pub proof fn lemma_put_many_empty<T: PackedScalar>(addr: u16, vals: Seq<T>)
    requires
        vals.len() == 0,
    ensures
        put_many_spec::<T>(addr, vals) == Seq::<u8>::empty(),
{
}

/// Storing one value as an array adds the same bytes as storing it alone.
pub proof fn lemma_put_many_one<T: PackedScalar>(addr: u16, vals: Seq<T>)
    requires
        vals.len() == 1,
    ensures
        put_many_spec::<T>(addr, vals) == put_spec::<T>(addr, vals[0]),
{
    let raws = vals.map_values(|v: T| v.raw());
    assert(put_count(addr, 1) == 1);
    let one = raws.take(1);
    assert(one.drop_last() =~= Seq::<nat>::empty());
    assert(one.last() == vals[0].raw());
    assert(values_bytes(one.drop_last(), T::spec_width()) =~= Seq::<u8>::empty());
    assert(values_bytes(one, T::spec_width()) =~= be_bytes(vals[0].raw(), T::spec_width()));
    assert(put_many_spec::<T>(addr, vals) =~= put_spec::<T>(addr, vals[0]));
}

/// Storing keeps a table made of whole entries made of whole entries.
pub proof fn lemma_put_keeps_well_formed<T: PackedScalar>(
    d: Seq<u8>,
    addr: u16,
    val: T,
    vals: Seq<T>,
)
    requires
        well_formed(d),
    ensures
        well_formed(d + put_spec::<T>(addr, val)),
        well_formed(d + put_many_spec::<T>(addr, vals)),
{
    T::lemma_raw(val);
    lemma_find_single_entry(T::spec_kind(), addr, val.raw(), T::spec_width());
    lemma_well_formed_append(d, put_spec::<T>(addr, val));
    lemma_well_formed_append(d, put_many_spec::<T>(addr, vals));
    let raws = vals.map_values(|v: T| v.raw());
    if put_count(addr, vals.len()) > 0 {
        assert forall|i: int| 0 <= i < raws.len() implies #[trigger] raws[i] < pow256(
            T::spec_width(),
        ) by {
            T::lemma_raw(vals[i]);
        }
        lemma_find_many_entry(T::spec_kind(), addr, raws, T::spec_width(), 1);
    } else {
        assert(well_formed(Seq::<u8>::empty()));
    }
}

/// In a table of whole entries every lookup of values reads only whole data.
pub proof fn lemma_well_formed_gets<T: PackedScalar>(d: Seq<u8>, addr: u16, num: u16)
    requires
        well_formed(d),
    ensures
        get_ok::<T>(d, addr),
        get_many_ok::<T>(d, addr, num),
{
    lemma_well_formed_lookups(d, addr, T::spec_width(), num);
}

/// The entry just stored is found again by a lookup at the offset where it
/// starts, as the iterator reports it.
pub proof fn lemma_peek_after_put<T: PackedScalar>(d: Seq<u8>, addr: u16, val: T)
    requires
        d.len() <= u64::MAX,
    ensures
        peek_ok::<T>(d + put_spec::<T>(addr, val), addr, d.len()),
        peek_spec::<T>(d + put_spec::<T>(addr, val), addr, d.len()) == Some(val),
        item_at(d + put_spec::<T>(addr, val), d.len()) == (PackedItem {
            addr,
            kind: T::spec_kind(),
            elms: 1,
            ipos: d.len() as u64,
        }),
{
    let x = put_spec::<T>(addr, val);
    T::lemma_raw(val);
    lemma_find_single_entry(T::spec_kind(), addr, val.raw(), T::spec_width());
    let dx = d + x;
    assert(dx.subrange(d.len() as int, dx.len() as int) =~= x);
    lemma_single_len(x);
    assert(dx.subrange(d.len() as int, dx.len() as int).subrange(4, 4 + T::spec_width() as int)
        =~= x.subrange(4, 4 + T::spec_width() as int));
}

/// A walk over a table of whole entries never stops in the middle of one: the
/// next step can be taken, and what follows it is again whole entries.
pub proof fn lemma_iter_step_well_formed(it: PackedItemIter)
    requires
        it.inv(),
        well_formed(it.bytes().subrange(it.position() as int, it.bytes().len() as int)),
    ensures
        it.can_step(),
        it.position() < it.bytes().len() ==> well_formed(
            it.bytes().subrange(
                (it.position() + entry_len(
                    it.bytes().subrange(it.position() as int, it.bytes().len() as int),
                )) as int,
                it.bytes().len() as int,
            ),
        ),
{
    let d = it.bytes();
    let e = d.subrange(it.position() as int, d.len() as int);
    if it.position() < d.len() {
        assert(after_entry(e) =~= d.subrange((it.position() + entry_len(e)) as int, d.len() as int));
    }
}

/// Reading back a text just stored: when no entry of bytes at `addr` was
/// there before and the text takes at most 256 bytes, all within the
/// addresses left from `addr` on, the bytes read back are valid UTF-8 and
/// decode to the text; nothing is read back only for the empty text.
pub proof fn lemma_get_str_after_put_str(d: Seq<u8>, addr: u16, text: Seq<char>)
    requires
        find_many(d, addr, 1, 256) is Absent,
        encode_utf8(text).len() <= 256,
        addr + encode_utf8(text).len() <= 0x10000,
    ensures
        match get_many_spec::<u8>(d + put_many_spec::<u8>(addr, encode_utf8(text)), addr, 256) {
            Some(b) => valid_utf8(b) && decode_utf8(b) == text,
            None => text.len() == 0,
        },
{
    let bytes = encode_utf8(text);
    encode_utf8_valid_utf8(text);
    encode_utf8_decode_utf8(text);
    assert(put_count(addr, bytes.len()) == bytes.len());
    if bytes.len() == 0 {
        assert(d + put_many_spec::<u8>(addr, bytes) =~= d);
        assert(bytes =~= Seq::<u8>::empty());
        assert(decode_utf8(Seq::<u8>::empty()) =~= Seq::<char>::empty());
    } else {
        lemma_get_many_after_put_many::<u8>(d, addr, bytes, 256);
        assert(many_count((bytes.len() - 1) as u8, 256) == bytes.len());
        assert(bytes.take(bytes.len() as int) =~= bytes);
    }
}

/// A lookup of the single value at `addr` among elements `width` bytes wide
/// walks past a stored value at another address or of another width: what it
/// finds is what it finds in the bytes that follow.
pub proof fn lemma_get_skips_other_entry<T: PackedScalar>(
    a: u16,
    val: T,
    x: Seq<u8>,
    addr: u16,
    width: nat,
)
    requires
        a != addr || T::spec_width() != width,
    ensures
        find_one(put_spec::<T>(a, val) + x, addr, width) == find_one(x, addr, width),
{
    let s = put_spec::<T>(a, val);
    T::lemma_raw(val);
    lemma_find_single_entry(T::spec_kind(), a, val.raw(), T::spec_width());
    lemma_entry_prefix(s, x);
    let sx = s + x;
    assert(entry_complete(sx));
    assert(after_entry(sx) =~= x);
}

/// A lookup of many values at `addr` among elements `width` bytes wide walks
/// past stored values at another address or of another width: what it finds
/// is what it finds in the bytes that follow.
pub proof fn lemma_get_many_skips_other_entry<T: PackedScalar>(
    a: u16,
    vals: Seq<T>,
    x: Seq<u8>,
    addr: u16,
    width: nat,
    num: u16,
)
    requires
        a != addr || T::spec_width() != width,
    ensures
        find_many(put_many_spec::<T>(a, vals) + x, addr, width, num) == find_many(
            x,
            addr,
            width,
            num,
        ),
{
    let s = put_many_spec::<T>(a, vals);
    if put_count(a, vals.len()) == 0 {
        assert(s =~= Seq::<u8>::empty());
        assert(s + x =~= x);
    } else {
        let raws = vals.map_values(|v: T| v.raw());
        assert forall|i: int| 0 <= i < raws.len() implies #[trigger] raws[i] < pow256(
            T::spec_width(),
        ) by {
            T::lemma_raw(vals[i]);
        }
        T::lemma_raw(vals[0]);
        lemma_find_many_entry(T::spec_kind(), a, raws, T::spec_width(), 1);
        lemma_many_entry_shape(T::spec_kind(), a, raws, T::spec_width());
        lemma_entry_prefix(s, x);
        let sx = s + x;
        assert(entry_complete(sx));
        assert(after_entry(sx) =~= x);
    }
}

/// The header of a stored entry: its element count less one, its kind, its
/// address, and that it is exactly one whole entry.
proof fn lemma_many_entry_shape(kind: u8, addr: u16, vals: Seq<nat>, width: nat)
    requires
        put_count(addr, vals.len()) > 0,
        kind % 16 == width,
        forall|i: int| 0 <= i < vals.len() ==> #[trigger] vals[i] < pow256(width),
    ensures
        many_entry(kind, addr, vals, width).len() >= 4,
        many_entry(kind, addr, vals, width)[0] as nat + 1 == put_count(addr, vals.len()),
        many_entry(kind, addr, vals, width)[1] == kind,
        entry_width(many_entry(kind, addr, vals, width)) == width,
        entry_addr(many_entry(kind, addr, vals, width)) == addr,
        entry_len(many_entry(kind, addr, vals, width)) == many_entry(kind, addr, vals, width).len(),
{
    let n = put_count(addr, vals.len());
    let vt = vals.take(n as int);
    let s = many_entry(kind, addr, vals, width);
    lemma_pow256_values();
    lemma_be_value_of_bytes(addr as nat, 2);
    lemma_values_bytes(vt, width);
    assert(s.subrange(2, 4) =~= be_bytes(addr as nat, 2));
    assert(s[0] == (n - 1) as u8);
    assert(entry_elms(s) == n);
    assert(s.len() == 4 + n * width);
}

/// Whatever a lookup of `num` values finds, it gives at least one and at most
/// `num` values.
pub proof fn lemma_get_many_bounded(d: Seq<u8>, addr: u16, width: nat, num: u16)
    ensures
        find_many(d, addr, width, num) matches Scan::Found(vs) ==> 1 <= vs.len() <= num,
    decreases d.len(),
{
    if num > 0 && d.len() >= 4 && !(entry_width(d) == width && entry_addr(d) == addr)
        && entry_complete(d) {
        lemma_get_many_bounded(after_entry(d), addr, width, num);
    }
}

/// Whatever a lookup of `num` values in the entry at offset `ipos` finds, it
/// gives as many values as the entry holds, but no more than `num`.
pub proof fn lemma_peek_many_bounded(d: Seq<u8>, addr: u16, width: nat, num: u16, ipos: nat)
    ensures
        peek_many(d, addr, width, num, ipos) matches Scan::Found(vs) ==> {
            &&& 1 <= vs.len() <= num
            &&& vs.len() == (if d[ipos as int] as nat + 1 <= num {
                d[ipos as int] as nat + 1
            } else {
                num as nat
            })
        },
{
}

/// Reading back values just stored, at the offset where their entry starts:
/// a lookup of `num > 0` values there gives as many of them as were stored,
/// but no more than `num`.
pub proof fn lemma_peek_many_after_put_many<T: PackedScalar>(
    d: Seq<u8>,
    addr: u16,
    vals: Seq<T>,
    num: u16,
)
    requires
        num > 0,
        put_count(addr, vals.len()) > 0,
    ensures
        peek_many_ok::<T>(d + put_many_spec::<T>(addr, vals), addr, num, d.len()),
        peek_many_spec::<T>(d + put_many_spec::<T>(addr, vals), addr, num, d.len()) == Some(
            vals.take(
                (if put_count(addr, vals.len()) <= num {
                    put_count(addr, vals.len())
                } else {
                    num as nat
                }) as int,
            ),
        ),
{
    let x = put_many_spec::<T>(addr, vals);
    let dx = d + x;
    let w = T::spec_width();
    let raws = vals.map_values(|v: T| v.raw());
    assert forall|i: int| 0 <= i < raws.len() implies #[trigger] raws[i] < pow256(w) by {
        T::lemma_raw(vals[i]);
    }
    T::lemma_raw(vals[0]);
    lemma_many_entry_shape(T::spec_kind(), addr, raws, w);
    lemma_find_many_entry(T::spec_kind(), addr, raws, w, num);
    assert(dx.subrange(d.len() as int, dx.len() as int) =~= x);
    let n = put_count(addr, vals.len());
    assert(x.len() == 4 + n * w);
    assert(w * n + 2 <= x.len()) by (nonlinear_arith)
        requires
            x.len() == 4 + n * w,
    ;
    assert(peek_many(dx, addr, w, num, d.len()) == find_many(x, addr, w, num));
    let cnt = many_count((n - 1) as u8, num);
    let got = raws.take(cnt as int).map_values(|v: nat| T::from_raw(v));
    assert forall|i: int| 0 <= i < cnt implies #[trigger] got[i] == vals.take(cnt as int)[i] by {
        T::lemma_raw(vals[i]);
    }
    assert(got =~= vals.take(cnt as int));
}

/// A lookup at the offset where a stored entry starts finds nothing when it
/// asks for another address or another width.
pub proof fn lemma_peek_other_entry<T: PackedScalar>(
    d: Seq<u8>,
    a: u16,
    val: T,
    vals: Seq<T>,
    addr: u16,
    width: nat,
    num: u16,
)
    requires
        a != addr || T::spec_width() != width,
    ensures
        peek_one(d + put_spec::<T>(a, val), addr, width, d.len()) is Absent,
        peek_many(d + put_many_spec::<T>(a, vals), addr, width, num, d.len()) is Absent,
{
    let x = put_spec::<T>(a, val);
    T::lemma_raw(val);
    lemma_find_single_entry(T::spec_kind(), a, val.raw(), T::spec_width());
    assert((d + x).subrange(d.len() as int, (d + x).len() as int) =~= x);
    let y = put_many_spec::<T>(a, vals);
    assert((d + y).subrange(d.len() as int, (d + y).len() as int) =~= y);
    if put_count(a, vals.len()) > 0 {
        let raws = vals.map_values(|v: T| v.raw());
        assert forall|i: int| 0 <= i < raws.len() implies #[trigger] raws[i] < pow256(
            T::spec_width(),
        ) by {
            T::lemma_raw(vals[i]);
        }
        T::lemma_raw(vals[0]);
        lemma_many_entry_shape(T::spec_kind(), a, raws, T::spec_width());
    } else {
        assert(y =~= Seq::<u8>::empty());
        assert(d + y =~= d);
    }
}

/// The bytes that storing a single value writes, type by type: a zero count,
/// the type's own kind code, the address, and the value's bit pattern, all
/// big-endian; each kind code names its type.
pub proof fn lemma_stored_bytes(
    addr: u16,
    a: i8,
    b: i16,
    c: i32,
    e: i64,
    f: u8,
    g: u16,
    h: u32,
    k: u64,
)
    ensures
        put_spec::<i8>(addr, a) == seq![0u8, 0x81u8] + be_bytes(addr as nat, 2) + be_bytes(
            (a as u8) as nat,
            1,
        ),
        put_spec::<i16>(addr, b) == seq![0u8, 0x82u8] + be_bytes(addr as nat, 2) + be_bytes(
            (b as u16) as nat,
            2,
        ),
        put_spec::<i32>(addr, c) == seq![0u8, 0x84u8] + be_bytes(addr as nat, 2) + be_bytes(
            (c as u32) as nat,
            4,
        ),
        put_spec::<i64>(addr, e) == seq![0u8, 0x88u8] + be_bytes(addr as nat, 2) + be_bytes(
            (e as u64) as nat,
            8,
        ),
        put_spec::<u8>(addr, f) == seq![0u8, 0x01u8] + be_bytes(addr as nat, 2) + be_bytes(
            f as nat,
            1,
        ),
        put_spec::<u16>(addr, g) == seq![0u8, 0x02u8] + be_bytes(addr as nat, 2) + be_bytes(
            g as nat,
            2,
        ),
        put_spec::<u32>(addr, h) == seq![0u8, 0x04u8] + be_bytes(addr as nat, 2) + be_bytes(
            h as nat,
            4,
        ),
        put_spec::<u64>(addr, k) == seq![0u8, 0x08u8] + be_bytes(addr as nat, 2) + be_bytes(
            k as nat,
            8,
        ),
        PackedValueKind::from_code(<i8 as PackedScalar>::spec_kind()) == PackedValueKind::I8,
        PackedValueKind::from_code(<i16 as PackedScalar>::spec_kind()) == PackedValueKind::I16,
        PackedValueKind::from_code(<i32 as PackedScalar>::spec_kind()) == PackedValueKind::I32,
        PackedValueKind::from_code(<i64 as PackedScalar>::spec_kind()) == PackedValueKind::I64,
        PackedValueKind::from_code(<u8 as PackedScalar>::spec_kind()) == PackedValueKind::U8,
        PackedValueKind::from_code(<u16 as PackedScalar>::spec_kind()) == PackedValueKind::U16,
        PackedValueKind::from_code(<u32 as PackedScalar>::spec_kind()) == PackedValueKind::U32,
        PackedValueKind::from_code(<u64 as PackedScalar>::spec_kind()) == PackedValueKind::U64,
{
}

/// Every kind is named by its own code, `Unknown` included.
pub proof fn lemma_kind_code_roundtrip(k: PackedValueKind)
    ensures
        PackedValueKind::from_code(k.code()) == k,
{
}

/// A code that names a kind is that kind's code.
pub proof fn lemma_kind_from_code(v: u8)
    ensures
        PackedValueKind::from_code(v) != PackedValueKind::Unknown ==> PackedValueKind::from_code(
            v,
        ).code() == v,
{
}

} // verus!
