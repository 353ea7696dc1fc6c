use vstd::prelude::*;
use vstd::std_specs::cmp::PartialEqSpec;
use vstd::std_specs::iter::IteratorSpec;

verus! {

/// An actor id is an opaque sequence of bytes identifying one replica.
#[derive(Debug, Eq, Hash, PartialOrd, Ord)]
pub struct ActorId(pub Vec<u8>);

/// The lowercase hexadecimal digit for `n < 16`.
pub open spec fn hex_digit(n: u8) -> char {
    if n < 10 {
        ((n + 48) as u8) as char
    } else {
        ((n + 87) as u8) as char
    }
}

/// Two lowercase hexadecimal digits for each byte, high nibble first.
pub open spec fn hex_of(bytes: Seq<u8>) -> Seq<char>
    decreases bytes.len(),
{
    if bytes.len() == 0 {
        Seq::empty()
    } else {
        hex_of(bytes.drop_last()) + seq![hex_digit(bytes.last() / 16), hex_digit(bytes.last() % 16)]
    }
}

/// Relies on uuid::Uuid::new_v4: the sixteen bytes of a random (version 4) uuid.
#[verifier::external_body]
fn random_uuid_bytes() -> (r: Vec<u8>)
    ensures
        r@.len() == 16,
{
    uuid::Uuid::new_v4().as_bytes().to_vec()
}

/// Relies on hex::encode: two lowercase hexadecimal digits for each byte, in order.
#[verifier::external_body]
fn hex_encode(bytes: &[u8]) -> (r: String)
    ensures
        r@ == hex_of(bytes@),
{
    hex::encode(bytes)
}

impl ActorId {
    /// A fresh actor id made of the sixteen bytes of a random uuid.
    pub fn random() -> (r: ActorId)
        ensures
            r@.len() == 16,
    {
        ActorId(random_uuid_bytes())
    }

    pub fn to_bytes(&self) -> (r: &[u8])
        ensures
            r@ == self@,
    {
        self.0.as_slice()
    }

    /// The bytes of the id in lowercase hexadecimal.
    pub fn to_hex_string(&self) -> (r: String)
        ensures
            r@ == hex_of(self@),
    {
        hex_encode(self.0.as_slice())
    }

    /// The operation with counter `seq` made by this actor.
    pub fn op_id_at(&self, seq: u64) -> (r: OpId)
        ensures
            r@ == (seq, self@),
    {
        OpId(seq, self.clone())
    }
}

impl View for ActorId {
    type V = Seq<u8>;

    open spec fn view(&self) -> Seq<u8> {
        self.0@
    }
}

impl Clone for ActorId {
    fn clone(&self) -> (r: Self)
        ensures
            r@ == self@,
    {
        let bytes = self.0.clone();
        proof {
            assert(bytes@ =~= self.0@);
        }
        ActorId(bytes)
    }
}

impl PartialEq for ActorId {
    fn eq(&self, o: &ActorId) -> (r: bool) {
        let r = self.0 == o.0;
        proof {
            if r {
                assert(self.0@ =~= o.0@);
            } else if self.0@.len() == o.0@.len() {
                let i = choose|i: int| 0 <= i < self.0.len() && !self.0[i].eq_spec(&o.0[i]);
                assert(self.0@[i] != o.0@[i]);
            }
        }
        r
    }
}

impl vstd::std_specs::cmp::PartialEqSpecImpl for ActorId {
    open spec fn obeys_eq_spec() -> bool {
        true
    }

    open spec fn eq_spec(&self, o: &ActorId) -> bool {
        self@ == o@
    }
}

impl OpId {
    pub fn new(seq: u64, actor: &ActorId) -> (r: OpId)
        ensures
            r@ == (seq, actor@),
    {
        OpId(seq, actor.clone())
    }

    pub fn counter(&self) -> (r: u64)
        ensures
            r == self.0,
    {
        self.0
    }

    /// The operation `by` steps further along the same actor's counter.
    pub fn increment_by(&self, by: u64) -> (r: OpId)
        requires
            self.0 + by <= u64::MAX,
        ensures
            r@ == ((self.0 + by) as u64, self@.1),
    {
        OpId(self.0 + by, self.1.clone())
    }

    /// Whether `other` has the same actor and a counter exactly `delta` greater.
    pub fn delta(&self, other: &Self, delta: u64) -> (r: bool)
        ensures
            r == (self@.1 == other@.1 && self.0 + delta == other.0),
    {
        self.1 == other.1 && other.0 >= self.0 && other.0 - self.0 == delta
    }
}

/// The identifier of an operation: a per-actor counter and the actor that made it.
#[derive(Debug, Eq, Hash, PartialOrd, Ord)]
pub struct OpId(pub u64, pub ActorId);

impl View for OpId {
    type V = (u64, Seq<u8>);

    open spec fn view(&self) -> (u64, Seq<u8>) {
        (self.0, self.1@)
    }
}

impl Clone for OpId {
    fn clone(&self) -> (r: Self)
        ensures
            r@ == self@,
    {
        OpId(self.0, self.1.clone())
    }
}

impl PartialEq for OpId {
    fn eq(&self, o: &OpId) -> (r: bool) {
        self.0 == o.0 && self.1 == o.1
    }
}

impl vstd::std_specs::cmp::PartialEqSpecImpl for OpId {
    open spec fn obeys_eq_spec() -> bool {
        true
    }

    open spec fn eq_spec(&self, o: &OpId) -> bool {
        self@ == o@
    }
}

/// The kind of an object in a document.
#[derive(Debug, Clone, Copy, PartialEq, Eq, Structural, Hash)]
pub enum ObjType {
    MapObj,
    Table,
    List,
    Text,
}

impl ObjType {
    /// Whether objects of this kind are ordered sequences (lists and text).
    pub fn is_sequence(&self) -> (r: bool)
        ensures
            r == (*self is List || *self is Text),
    {
        match self {
            ObjType::List | ObjType::Text => true,
            _ => false,
        }
    }
}

#[derive(Debug, Clone, Copy, PartialEq, Eq, Structural, Hash)]
pub enum MapType {
    MapObj,
    Table,
}

#[derive(Debug, Clone, Copy, PartialEq, Eq, Structural, Hash)]
pub enum SequenceType {
    List,
    Text,
}

impl From<MapType> for ObjType {
    fn from(other: MapType) -> (r: ObjType) {
        match other {
            MapType::MapObj => ObjType::MapObj,
            MapType::Table => ObjType::Table,
        }
    }
}

impl vstd::std_specs::convert::FromSpecImpl<MapType> for ObjType {
    open spec fn obeys_from_spec() -> bool {
        true
    }

    open spec fn from_spec(v: MapType) -> ObjType {
        match v {
            MapType::MapObj => ObjType::MapObj,
            MapType::Table => ObjType::Table,
        }
    }
}

impl From<SequenceType> for ObjType {
    fn from(other: SequenceType) -> (r: ObjType) {
        match other {
            SequenceType::List => ObjType::List,
            SequenceType::Text => ObjType::Text,
        }
    }
}

impl vstd::std_specs::convert::FromSpecImpl<SequenceType> for ObjType {
    open spec fn obeys_from_spec() -> bool {
        true
    }

    open spec fn from_spec(v: SequenceType) -> ObjType {
        match v {
            SequenceType::List => ObjType::List,
            SequenceType::Text => ObjType::Text,
        }
    }
}

/// An explicit interpretation tag for a scalar value.
#[derive(Debug, Clone, Copy, PartialEq, Eq, Structural)]
pub enum DataType {
    Counter,
    Timestamp,
    Bytes,
    Cursor,
    Uint,
    Int,
    F64,
    Undefined,
}

impl DataType {
    pub fn is_undefined(d: &DataType) -> (r: bool)
        ensures
            r == (*d is Undefined),
    {
        match d {
            DataType::Undefined => true,
            _ => false,
        }
    }
}

/// The hash of a change.
#[derive(Debug, Clone, Copy, PartialEq, Eq, Hash, PartialOrd, Ord)]
pub struct ChangeHash(pub [u8; 32]);

/// An object of a document: the root map, or the object that an operation created.
#[derive(Debug, Eq, Hash)]
pub enum ObjectId {
    Id(OpId),
    Root,
}

impl View for ObjectId {
    /// `None` for the root.
    type V = Option<(u64, Seq<u8>)>;

    open spec fn view(&self) -> Option<(u64, Seq<u8>)> {
        match self {
            ObjectId::Id(opid) => Some(opid@),
            ObjectId::Root => None,
        }
    }
}

impl Clone for ObjectId {
    fn clone(&self) -> (r: Self)
        ensures
            r@ == self@,
    {
        match self {
            ObjectId::Id(opid) => ObjectId::Id(opid.clone()),
            ObjectId::Root => ObjectId::Root,
        }
    }
}

impl PartialEq for ObjectId {
    fn eq(&self, o: &ObjectId) -> (r: bool) {
        match (self, o) {
            (ObjectId::Id(a), ObjectId::Id(b)) => a == b,
            (ObjectId::Root, ObjectId::Root) => true,
            _ => false,
        }
    }
}

impl vstd::std_specs::cmp::PartialEqSpecImpl for ObjectId {
    open spec fn obeys_eq_spec() -> bool {
        true
    }

    open spec fn eq_spec(&self, o: &ObjectId) -> bool {
        self@ == o@
    }
}

/// A position in a sequence named by causal identity: the head of the sequence,
/// or the element that an operation inserted.
#[derive(Debug, Eq, Hash)]
pub enum ElementId {
    Head,
    Id(OpId),
}

impl View for ElementId {
    /// `None` for the head.
    type V = Option<(u64, Seq<u8>)>;

    open spec fn view(&self) -> Option<(u64, Seq<u8>)> {
        match self {
            ElementId::Head => None,
            ElementId::Id(opid) => Some(opid@),
        }
    }
}

impl Clone for ElementId {
    fn clone(&self) -> (r: Self)
        ensures
            r@ == self@,
    {
        match self {
            ElementId::Head => ElementId::Head,
            ElementId::Id(opid) => ElementId::Id(opid.clone()),
        }
    }
}

impl PartialEq for ElementId {
    fn eq(&self, o: &ElementId) -> (r: bool) {
        match (self, o) {
            (ElementId::Id(a), ElementId::Id(b)) => a == b,
            (ElementId::Head, ElementId::Head) => true,
            _ => false,
        }
    }
}

impl vstd::std_specs::cmp::PartialEqSpecImpl for ElementId {
    open spec fn obeys_eq_spec() -> bool {
        true
    }

    open spec fn eq_spec(&self, o: &ElementId) -> bool {
        self@ == o@
    }
}

impl ElementId {
    pub fn as_opid(&self) -> (r: Option<&OpId>)
        ensures
            *self is Head ==> r is None,
            *self is Id ==> r == Some(&self->Id_0),
    {
        match self {
            ElementId::Head => None,
            ElementId::Id(opid) => Some(opid),
        }
    }

    pub fn into_key(self) -> (r: Key)
        ensures
            r == Key::SeqKey(self),
    {
        Key::SeqKey(self)
    }

    pub fn not_head(&self) -> (r: bool)
        ensures
            r == (*self is Id),
    {
        match self {
            ElementId::Head => false,
            ElementId::Id(_) => true,
        }
    }

    /// The element `by` steps further along the same actor's counter; `None`
    /// for the head.
    pub fn increment_by(&self, by: u64) -> (r: Option<Self>)
        requires
            *self is Id ==> self->Id_0.0 + by <= u64::MAX,
        ensures
            *self is Head ==> r is None,
            *self is Id ==> r is Some && r.unwrap()@ == Some(
                ((self->Id_0.0 + by) as u64, self->Id_0@.1),
            ),
    {
        match self {
            ElementId::Head => None,
            ElementId::Id(id) => Some(ElementId::Id(id.increment_by(by))),
        }
    }
}

/// What an operation updates: a key of a map, or an element of a sequence.
#[derive(Debug, Eq, Hash)]
pub enum Key {
    MapKey(String),
    SeqKey(ElementId),
}

impl Clone for Key {
    fn clone(&self) -> (r: Self)
        ensures
            *self is MapKey ==> r is MapKey && r->MapKey_0@ == self->MapKey_0@,
            *self is SeqKey ==> r is SeqKey && r->SeqKey_0@ == self->SeqKey_0@,
    {
        match self {
            Key::MapKey(k) => Key::MapKey(k.clone()),
            Key::SeqKey(eid) => Key::SeqKey(eid.clone()),
        }
    }
}

impl PartialEq for Key {
    fn eq(&self, o: &Key) -> (r: bool) {
        match (self, o) {
            (Key::MapKey(a), Key::MapKey(b)) => a.eq(b),
            (Key::SeqKey(a), Key::SeqKey(b)) => a == b,
            _ => false,
        }
    }
}

impl vstd::std_specs::cmp::PartialEqSpecImpl for Key {
    open spec fn obeys_eq_spec() -> bool {
        true
    }

    open spec fn eq_spec(&self, o: &Key) -> bool {
        match (self, o) {
            (Key::MapKey(a), Key::MapKey(b)) => a@ == b@,
            (Key::SeqKey(a), Key::SeqKey(b)) => a@ == b@,
            _ => false,
        }
    }
}

impl Key {
    /// The key of the head of a sequence.
    pub fn head() -> (r: Key)
        ensures
            r == Key::SeqKey(ElementId::Head),
    {
        Key::SeqKey(ElementId::Head)
    }

    pub fn is_map_key(&self) -> (r: bool)
        ensures
            r == (*self is MapKey),
    {
        match self {
            Key::MapKey(_) => true,
            Key::SeqKey(_) => false,
        }
    }

    pub fn as_element_id(&self) -> (r: Option<ElementId>)
        ensures
            *self is MapKey ==> r is None,
            *self is SeqKey ==> r is Some && r.unwrap()@ == self->SeqKey_0@,
    {
        match self {
            Key::MapKey(_) => None,
            Key::SeqKey(eid) => Some(eid.clone()),
        }
    }

    /// The operation that inserted the element this key names, if it names one.
    pub fn to_opid(&self) -> (r: Option<OpId>)
        ensures
            (*self is SeqKey && self->SeqKey_0 is Id) ==> r is Some && r.unwrap()@
                == self->SeqKey_0->Id_0@,
            !(*self is SeqKey && self->SeqKey_0 is Id) ==> r is None,
    {
        match self.as_element_id() {
            Some(ElementId::Id(id)) => Some(id),
            _ => None,
        }
    }

    /// The sequence key `by` steps further along the same actor's counter; `None`
    /// for a map key or the head.
    pub fn increment_by(&self, by: u64) -> (r: Option<Self>)
        requires
            (*self is SeqKey && self->SeqKey_0 is Id) ==> self->SeqKey_0->Id_0.0 + by <= u64::MAX,
        ensures
            (*self is SeqKey && self->SeqKey_0 is Id) ==> r is Some && r.unwrap() is SeqKey
                && r.unwrap()->SeqKey_0@ == Some(
                ((self->SeqKey_0->Id_0.0 + by) as u64, self->SeqKey_0->Id_0@.1),
            ),
            !(*self is SeqKey && self->SeqKey_0 is Id) ==> r is None,
    {
        match self {
            Key::MapKey(_) => None,
            Key::SeqKey(eid) => match eid.increment_by(by) {
                Some(next) => Some(Key::SeqKey(next)),
                None => None,
            },
        }
    }
}

/// A vector whose owner keeps its items in ascending order.
#[derive(Debug)]
pub struct SortedVec<T>(Vec<T>);

impl<T> View for SortedVec<T> {
    type V = Seq<T>;

    closed spec fn view(&self) -> Seq<T> {
        self.0@
    }
}

impl<T> SortedVec<T> {
    pub fn new() -> (r: Self)
        ensures
            r@ == Seq::<T>::empty(),
    {
        SortedVec(Vec::new())
    }

    pub fn len(&self) -> (r: usize)
        ensures
            r == self@.len(),
    {
        self.0.len()
    }

    pub fn is_empty(&self) -> (r: bool)
        ensures
            r == (self@.len() == 0),
    {
        self.len() == 0
    }

    pub fn get(&self, index: usize) -> (r: Option<&T>)
        ensures
            index < self@.len() ==> r == Some(&self@[index as int]),
            index >= self@.len() ==> r is None,
    {
        if index < self.0.len() {
            Some(&self.0[index])
        } else {
            None
        }
    }

    /// Mutable access to the item at `index`; `None` past the end.
    pub fn get_mut(&mut self, index: usize) -> (r: Option<&mut T>)
        ensures
            index < old(self)@.len() ==> {
                &&& r is Some
                &&& *r.unwrap() == old(self)@[index as int]
                &&& final(self)@ == old(self)@.update(index as int, *final(r.unwrap()))
            },
            index >= old(self)@.len() ==> r is None && final(self)@ == old(self)@,
    {
        if index < self.0.len() {
            Some(&mut self.0[index])
        } else {
            None
        }
    }

    /// An iterator over the items, in order.
    pub fn iter(&self) -> (r: std::slice::Iter<'_, T>)
        ensures
            r.remaining() == self@.as_ref(),
    {
        broadcast use vstd::std_specs::slice::axiom_spec_slice_iter;

        self.0.as_slice().iter()
    }
}

/// Lexicographic order on byte strings; a proper prefix comes first.
pub open spec fn bytes_le(a: Seq<u8>, b: Seq<u8>) -> bool
    decreases a.len(),
{
    if a.len() == 0 {
        true
    } else if b.len() == 0 {
        false
    } else if a[0] != b[0] {
        a[0] < b[0]
    } else {
        bytes_le(a.drop_first(), b.drop_first())
    }
}

/// The order of operation ids: by counter, then by the actor's bytes.
pub open spec fn opid_le(a: (u64, Seq<u8>), b: (u64, Seq<u8>)) -> bool {
    a.0 < b.0 || (a.0 == b.0 && bytes_le(a.1, b.1))
}

/// Any two byte strings are ordered one way or the other.
pub proof fn lemma_bytes_le_total(a: Seq<u8>, b: Seq<u8>)
    ensures
        bytes_le(a, b) || bytes_le(b, a),
    decreases a.len(),
{
    if a.len() > 0 && b.len() > 0 && a[0] == b[0] {
        lemma_bytes_le_total(a.drop_first(), b.drop_first());
    }
}

/// The byte order is transitive.
pub proof fn lemma_bytes_le_transitive(a: Seq<u8>, b: Seq<u8>, c: Seq<u8>)
    requires
        bytes_le(a, b),
        bytes_le(b, c),
    ensures
        bytes_le(a, c),
    decreases a.len(),
{
    if a.len() > 0 && a[0] == b[0] && b[0] == c[0] {
        lemma_bytes_le_transitive(a.drop_first(), b.drop_first(), c.drop_first());
    }
}

/// Two byte strings ordered both ways are equal.
pub proof fn lemma_bytes_le_antisymmetric(a: Seq<u8>, b: Seq<u8>)
    requires
        bytes_le(a, b),
        bytes_le(b, a),
    ensures
        a == b,
    decreases a.len(),
{
    if a.len() > 0 {
        lemma_bytes_le_antisymmetric(a.drop_first(), b.drop_first());
        assert(a =~= seq![a[0]] + a.drop_first());
        assert(b =~= seq![b[0]] + b.drop_first());
    } else {
        assert(b =~= a);
    }
}

/// The order of operation ids is total, transitive and antisymmetric.
pub proof fn lemma_opid_le_total_order(a: (u64, Seq<u8>), b: (u64, Seq<u8>), c: (u64, Seq<u8>))
    ensures
        opid_le(a, b) || opid_le(b, a),
        opid_le(a, b) && opid_le(b, c) ==> opid_le(a, c),
        opid_le(a, b) && opid_le(b, a) ==> a == b,
{
    lemma_bytes_le_total(a.1, b.1);
    if opid_le(a, b) && opid_le(b, c) && a.0 == b.0 && b.0 == c.0 {
        lemma_bytes_le_transitive(a.1, b.1, c.1);
    }
    if opid_le(a, b) && opid_le(b, a) {
        lemma_bytes_le_antisymmetric(a.1, b.1);
    }
}

/// Whether `a` comes no later than `b` in the byte order.
fn bytes_precede(a: &[u8], b: &[u8]) -> (r: bool)
    ensures
        r == bytes_le(a@, b@),
{
    let mut i: usize = 0;
    proof {
        assert(a@.skip(0) =~= a@);
        assert(b@.skip(0) =~= b@);
    }
    while i < a.len() && i < b.len()
        invariant
            i <= a@.len(),
            i <= b@.len(),
            bytes_le(a@, b@) == bytes_le(a@.skip(i as int), b@.skip(i as int)),
        decreases a@.len() - i,
    {
        if a[i] != b[i] {
            return a[i] < b[i];
        }
        proof {
            assert(a@.skip(i as int).drop_first() =~= a@.skip(i + 1));
            assert(b@.skip(i as int).drop_first() =~= b@.skip(i + 1));
        }
        i = i + 1;
    }
    i == a.len()
}

impl OpId {
    /// Whether this id comes no later than `other`: by counter, then by actor.
    pub fn precedes(&self, other: &OpId) -> (r: bool)
        ensures
            r == opid_le(self@, other@),
    {
        self.0 < other.0 || (self.0 == other.0 && bytes_precede(
            self.1.0.as_slice(),
            other.1.0.as_slice(),
        ))
    }
}

/// Each id of `s` comes no later than those after it.
pub open spec fn opids_sorted(s: Seq<OpId>) -> bool {
    forall|i: int, j: int| 0 <= i < j < s.len() ==> opid_le(#[trigger] s[i]@, #[trigger] s[j]@)
}

impl SortedVec<OpId> {
    /// The ids of `items`, put in order.
    pub fn from_unsorted(items: Vec<OpId>) -> (r: Self)
        ensures
            opids_sorted(r@),
            r@.to_multiset() == items@.to_multiset(),
    {
        let ghost given = items@;
        let mut items = items;
        let mut sorted: Vec<OpId> = Vec::new();
        proof {
            vstd::seq_lib::to_multiset_len(sorted@);
            vstd::multiset::lemma_multiset_empty_len(sorted@.to_multiset());
            assert(sorted@.to_multiset().add(items@.to_multiset()) =~= given.to_multiset());
        }
        while items.len() > 0
            invariant
                opids_sorted(sorted@),
                sorted@.to_multiset().add(items@.to_multiset()) == given.to_multiset(),
            decreases items@.len(),
        {
            let ghost rest = items@;
            let x = items.pop().unwrap();
            proof {
                assert(rest =~= items@.push(x));
            }
            let mut i: usize = 0;
            while i < sorted.len() && sorted[i].precedes(&x)
                invariant
                    i <= sorted@.len(),
                    forall|k: int| 0 <= k < i ==> opid_le(#[trigger] sorted@[k]@, x@),
                decreases sorted@.len() - i,
            {
                i = i + 1;
            }
            let ghost before = sorted@;
            proof {
                if i < before.len() {
                    lemma_opid_le_total_order(before[i as int]@, x@, x@);
                }
                assert forall|j: int| i <= j < before.len() implies opid_le(
                    x@,
                    #[trigger] before[j]@,
                ) by {
                    lemma_opid_le_total_order(x@, before[i as int]@, before[j]@);
                }
            }
            sorted.insert(i, x);
            proof {
                assert(sorted@ == before.insert(i as int, x));
                vstd::seq_lib::to_multiset_insert(before, i as int, x);
                vstd::seq_lib::to_multiset_build(items@, x);
                assert(sorted@.to_multiset().add(items@.to_multiset()) =~= before.to_multiset().add(
                    rest.to_multiset(),
                ));
                assert forall|a: int, b: int| 0 <= a < b < sorted@.len() implies opid_le(
                    #[trigger] sorted@[a]@,
                    #[trigger] sorted@[b]@,
                ) by {
                    if a < i && b > i {
                        lemma_opid_le_total_order(sorted@[a]@, x@, sorted@[b]@);
                    }
                }
            }
        }
        proof {
            vstd::seq_lib::to_multiset_len(items@);
            vstd::multiset::lemma_multiset_empty_len(items@.to_multiset());
            assert(sorted@.to_multiset() =~= given.to_multiset());
        }
        SortedVec(sorted)
    }
}

} // verus!
