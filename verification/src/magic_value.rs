//! Values of a style that may be given in place or by reference.
use crate::resolve::StyleSource;
use vstd::prelude::*;

verus! {

/// How the text of a referenced value is written.
#[derive(Clone, Copy, Debug, PartialEq, Eq, Structural)]
pub enum StrEncoding {
    Ron,
    Json,
}

impl Default for StrEncoding {
    fn default() -> (r: Self)
        ensures
            r == StrEncoding::Ron,
    {
        StrEncoding::Ron
    }
}

/// The mathematical content of a [`MagicValueKind`].
pub ghost enum KindView {
    Fixed,
    Prop(Seq<char>, StrEncoding),
    Ron(Seq<char>),
    Json(Seq<char>),
    Http(Seq<char>, StrEncoding),
}

/// Where a value comes from.
#[derive(Debug, PartialEq, Eq)]
pub enum MagicValueKind {
    /// The value stands in place.
    Fixed,
    /// The value is written in the named property of the feature at hand.
    Prop(String, StrEncoding),
    /// The value is written in the file at this path.
    Ron(String),
    /// The value is written, in the other encoding, in the file at this path.
    Json(String),
    /// The value is written in what this address serves.
    Http(String, StrEncoding),
}

impl View for MagicValueKind {
    type V = KindView;

    open spec fn view(&self) -> KindView {
        match self {
            MagicValueKind::Fixed => KindView::Fixed,
            MagicValueKind::Prop(name, encoding) => KindView::Prop(name@, *encoding),
            MagicValueKind::Ron(path) => KindView::Ron(path@),
            MagicValueKind::Json(path) => KindView::Json(path@),
            MagicValueKind::Http(url, encoding) => KindView::Http(url@, *encoding),
        }
    }
}

impl Clone for MagicValueKind {
    fn clone(&self) -> (r: Self)
        ensures
            r@ == self@,
    {
        match self {
            MagicValueKind::Fixed => MagicValueKind::Fixed,
            MagicValueKind::Prop(name, encoding) => MagicValueKind::Prop(name.clone(), *encoding),
            MagicValueKind::Ron(path) => MagicValueKind::Ron(path.clone()),
            MagicValueKind::Json(path) => MagicValueKind::Json(path.clone()),
            MagicValueKind::Http(url, encoding) => MagicValueKind::Http(url.clone(), *encoding),
        }
    }
}

impl Default for MagicValueKind {
    fn default() -> (r: Self)
        ensures
            r@ == KindView::Fixed,
    {
        MagicValueKind::Fixed
    }
}

/// A value of a style together with where it comes from. Until the value
/// has been resolved, `inner` holds a stand-in.
#[derive(Debug, PartialEq)]
pub struct MagicValue<T> {
    pub inner: T,
    pub kind: MagicValueKind,
    pub need_scale: bool,
}

impl<T: Default> MagicValue<T> {
    /// A value to be read from the file at `path`, with the default of its
    /// type as stand-in.
    pub fn new_ron(path: String) -> (r: Self)
        ensures
            r.kind@ == KindView::Ron(path@),
            !r.need_scale,
            call_ensures(T::default, (), r.inner),
    {
        MagicValue { inner: T::default(), kind: MagicValueKind::Ron(path), need_scale: false }
    }
}

impl<T> MagicValue<T> {
    /// A value that stands in place.
    pub fn new(inner: T) -> (r: Self)
        ensures
            r == (MagicValue { inner, kind: MagicValueKind::Fixed, need_scale: false }),
    {
        MagicValue { inner, kind: MagicValueKind::Fixed, need_scale: false }
    }

    /// The value held, resolved or not.
    pub fn unwrap(self) -> (r: T)
        ensures
            r == self.inner,
    {
        self.inner
    }

    /// The value held, resolved or not.
    pub fn as_ref(&self) -> (r: &T)
        ensures
            *r == self.inner,
    {
        &self.inner
    }

    /// The value held, to be changed in place; where it comes from stays as
    /// it is.
    pub fn as_mut(&mut self) -> (r: &mut T)
        ensures
            *r == old(self).inner,
            final(self).inner == *final(r),
            final(self).kind == old(self).kind,
            final(self).need_scale == old(self).need_scale,
    {
        &mut self.inner
    }
}

impl<T> From<T> for MagicValue<T> {
    fn from(value: T) -> (r: Self) {
        MagicValue::new(value)
    }
}

impl<T> vstd::std_specs::convert::FromSpecImpl<T> for MagicValue<T> {
    open spec fn obeys_from_spec() -> bool {
        true
    }

    open spec fn from_spec(value: T) -> Self {
        MagicValue { inner: value, kind: MagicValueKind::Fixed, need_scale: false }
    }
}

impl<T: Default> Default for MagicValue<T> {
    fn default() -> (r: Self)
        ensures
            r.kind@ == KindView::Fixed,
            !r.need_scale,
            call_ensures(T::default, (), r.inner),
    {
        MagicValue { inner: T::default(), kind: MagicValueKind::Fixed, need_scale: false }
    }
}

/// The mathematical content of a [`PropValue`].
pub ghost enum PropView {
    Null,
    String(Seq<char>),
    Float64(u64),
    Float32(u32),
    Int32(i32),
    Int64(i64),
    Boolean(bool),
}

/// A scalar of a feature's property bag or of a style. The two floating
/// variants hold the bit pattern of the number.
#[derive(Debug, PartialEq)]
pub enum PropValue {
    Null,
    String(String),
    Float64(u64),
    Float32(u32),
    Int32(i32),
    Int64(i64),
    Boolean(bool),
}

impl View for PropValue {
    type V = PropView;

    open spec fn view(&self) -> PropView {
        match self {
            PropValue::Null => PropView::Null,
            PropValue::String(s) => PropView::String(s@),
            PropValue::Float64(b) => PropView::Float64(*b),
            PropValue::Float32(b) => PropView::Float32(*b),
            PropValue::Int32(v) => PropView::Int32(*v),
            PropValue::Int64(v) => PropView::Int64(*v),
            PropValue::Boolean(v) => PropView::Boolean(*v),
        }
    }
}

impl Clone for PropValue {
    fn clone(&self) -> (r: Self)
        ensures
            r@ == self@,
    {
        match self {
            PropValue::Null => PropValue::Null,
            PropValue::String(s) => PropValue::String(s.clone()),
            PropValue::Float64(b) => PropValue::Float64(*b),
            PropValue::Float32(b) => PropValue::Float32(*b),
            PropValue::Int32(v) => PropValue::Int32(*v),
            PropValue::Int64(v) => PropValue::Int64(*v),
            PropValue::Boolean(v) => PropValue::Boolean(*v),
        }
    }
}

impl<'a> From<&'a str> for PropValue {
    /// The text as a scalar.
    fn from(value: &'a str) -> (r: Self)
        ensures
            r@ == PropView::String(value@),
    {
        PropValue::String(value.to_string())
    }
}

impl<'a> vstd::std_specs::convert::FromSpecImpl<&'a str> for PropValue {
    open spec fn obeys_from_spec() -> bool {
        false
    }

    open spec fn from_spec(value: &'a str) -> Self {
        PropValue::String(choose|text: String| text@ == value@)
    }
}

impl From<String> for PropValue {
    fn from(value: String) -> (r: Self) {
        PropValue::String(value)
    }
}

impl vstd::std_specs::convert::FromSpecImpl<String> for PropValue {
    open spec fn obeys_from_spec() -> bool {
        true
    }

    open spec fn from_spec(value: String) -> Self {
        PropValue::String(value)
    }
}

impl From<bool> for PropValue {
    fn from(value: bool) -> (r: Self) {
        PropValue::Boolean(value)
    }
}

impl vstd::std_specs::convert::FromSpecImpl<bool> for PropValue {
    open spec fn obeys_from_spec() -> bool {
        true
    }

    open spec fn from_spec(value: bool) -> Self {
        PropValue::Boolean(value)
    }
}

impl From<i32> for PropValue {
    fn from(value: i32) -> (r: Self) {
        PropValue::Int32(value)
    }
}

impl vstd::std_specs::convert::FromSpecImpl<i32> for PropValue {
    open spec fn obeys_from_spec() -> bool {
        true
    }

    open spec fn from_spec(value: i32) -> Self {
        PropValue::Int32(value)
    }
}

impl From<i64> for PropValue {
    fn from(value: i64) -> (r: Self) {
        PropValue::Int64(value)
    }
}

impl vstd::std_specs::convert::FromSpecImpl<i64> for PropValue {
    open spec fn obeys_from_spec() -> bool {
        true
    }

    open spec fn from_spec(value: i64) -> Self {
        PropValue::Int64(value)
    }
}

impl Default for PropValue {
    fn default() -> (r: Self)
        ensures
            r@ == PropView::Null,
    {
        PropValue::Null
    }
}

/// The value found under a name among the first `n` entries: that of the
/// first entry so named.
pub open spec fn lookup_upto(entries: Seq<(Seq<char>, PropView)>, name: Seq<char>, n: nat) -> Option<
    PropView,
>
    decreases n,
{
    if n == 0 || n > entries.len() {
        None
    } else {
        match lookup_upto(entries, name, (n - 1) as nat) {
            Some(v) => Some(v),
            None => if entries[n - 1].0 == name {
                Some(entries[n - 1].1)
            } else {
                None
            },
        }
    }
}

/// The place of the first entry under a name among the first `n` entries.
pub open spec fn position_upto(entries: Seq<(Seq<char>, PropView)>, name: Seq<char>, n: nat) -> Option<
    int,
>
    decreases n,
{
    if n == 0 || n > entries.len() {
        None
    } else {
        match position_upto(entries, name, (n - 1) as nat) {
            Some(i) => Some(i),
            None => if entries[n - 1].0 == name {
                Some(n - 1)
            } else {
                None
            },
        }
    }
}

/// The entries once a value is put under a name: in place of the first
/// value under that name, or after all entries where there is none.
pub open spec fn put(entries: Seq<(Seq<char>, PropView)>, name: Seq<char>, value: PropView) -> Seq<
    (Seq<char>, PropView),
> {
    match position_upto(entries, name, entries.len()) {
        Some(i) => entries.update(i, (name, value)),
        None => entries.push((name, value)),
    }
}

/// The property bag of a feature: names with their values, in the order in
/// which the names were first given. [`Properties::insert`] keeps one value
/// under a name; in a bag put together otherwise, a name that occurs twice
/// means its first value.
#[derive(Debug, PartialEq)]
pub struct Properties {
    pub entries: Vec<(String, PropValue)>,
}

impl View for Properties {
    type V = Seq<(Seq<char>, PropView)>;

    open spec fn view(&self) -> Seq<(Seq<char>, PropView)> {
        Seq::new(self.entries@.len(), |i: int| (self.entries@[i].0@, self.entries@[i].1@))
    }
}

impl Clone for Properties {
    fn clone(&self) -> (r: Self)
        ensures
            r@ == self@,
    {
        let mut entries: Vec<(String, PropValue)> = Vec::new();
        let mut i: usize = 0;
        while i < self.entries.len()
            invariant
                i <= self.entries.len(),
                entries@.len() == i,
                forall|k: int|
                    0 <= k < i ==> entries@[k].0@ == self.entries@[k].0@ && entries@[k].1@
                        == self.entries@[k].1@,
            decreases self.entries.len() - i,
        {
            entries.push((self.entries[i].0.clone(), self.entries[i].1.clone()));
            i += 1;
        }
        let r = Properties { entries };
        assert(r@ =~= self@);
        r
    }
}

impl Properties {
    /// The value that the bag holds under a name, if any.
    pub open spec fn lookup(&self, name: Seq<char>) -> Option<PropView> {
        lookup_upto(self@, name, self@.len())
    }

    /// The empty bag.
    pub fn new() -> (r: Properties)
        ensures
            r@.len() == 0,
            forall|name: Seq<char>| r.lookup(name) is None,
    {
        Properties { entries: Vec::new() }
    }

    /// Puts a value under a name: in place of the value that the name has,
    /// or, where the bag has none under it, after the entries already
    /// there. Every other name keeps its value.
    pub fn insert(&mut self, name: String, value: PropValue)
        ensures
            final(self)@ == put(old(self)@, name@, value@),
            final(self).lookup(name@) == Some(value@),
            forall|other: Seq<char>|
                other != name@ ==> final(self).lookup(other) == old(self).lookup(other),
    {
        let ghost before = self@;
        let mut i: usize = 0;
        while i < self.entries.len()
            invariant
                i <= self.entries.len(),
                *self == *old(self),
                self@ == before,
                position_upto(before, name@, i as nat) is None,
            decreases self.entries.len() - i,
        {
            if self.entries[i].0 == name {
                proof {
                    lemma_position_found(before, name@, i as nat, before.len());
                    lemma_put(before, name@, value@);
                }
                self.entries.set(i, (name, value));
                assert(self@ =~= before.update(i as int, (name@, value@)));
                return;
            }
            i += 1;
        }
        proof {
            lemma_put(before, name@, value@);
        }
        self.entries.push((name, value));
        assert(self@ =~= before.push((name@, value@)));
    }

    /// The value under a name, if the bag holds one.
    pub fn get(&self, name: &String) -> (r: Option<&PropValue>)
        ensures
            match r {
                Some(v) => self.lookup(name@) == Some(v@),
                None => self.lookup(name@) is None,
            },
    {
        let mut i: usize = 0;
        while i < self.entries.len()
            invariant
                i <= self.entries.len(),
                lookup_upto(self@, name@, i as nat) is None,
            decreases self.entries.len() - i,
        {
            if self.entries[i].0 == *name {
                proof {
                    lemma_lookup_found(self@, name@, i as nat, self@.len());
                }
                return Some(&self.entries[i].1);
            }
            i += 1;
        }
        None
    }
}

/// The first place under a name lies among the entries looked at and has
/// that name, and the lookup gives the value there; where there is no such
/// place, the lookup gives nothing.
pub proof fn lemma_position(entries: Seq<(Seq<char>, PropView)>, name: Seq<char>, n: nat)
    requires
        n <= entries.len(),
    ensures
        match position_upto(entries, name, n) {
            Some(i) => 0 <= i < n && entries[i].0 == name && lookup_upto(entries, name, n) == Some(
                entries[i].1,
            ),
            None => lookup_upto(entries, name, n) is None,
        },
    decreases n,
{
    if n > 0 {
        lemma_position(entries, name, (n - 1) as nat);
    }
}

/// Where the first `i` entries lack the name and entry `i` has it, the
/// first place under the name is `i`, however many entries are looked at.
pub proof fn lemma_position_found(
    entries: Seq<(Seq<char>, PropView)>,
    name: Seq<char>,
    i: nat,
    n: nat,
)
    requires
        i < n <= entries.len(),
        position_upto(entries, name, i) is None,
        entries[i as int].0 == name,
    ensures
        position_upto(entries, name, n) == Some(i as int),
    decreases n,
{
    if n > i + 1 {
        lemma_position_found(entries, name, i, (n - 1) as nat);
    }
}

/// Entries that agree on the names, and on the values under every name but
/// one, give the same first place for every name and the same value for
/// every other name.
pub proof fn lemma_same_names(
    a: Seq<(Seq<char>, PropView)>,
    b: Seq<(Seq<char>, PropView)>,
    name: Seq<char>,
    other: Seq<char>,
    n: nat,
)
    requires
        n <= a.len(),
        n <= b.len(),
        forall|i: int| 0 <= i < n ==> a[i].0 == b[i].0,
        forall|i: int| 0 <= i < n && a[i].0 != name ==> a[i].1 == b[i].1,
    ensures
        position_upto(a, other, n) == position_upto(b, other, n),
        other != name ==> lookup_upto(a, other, n) == lookup_upto(b, other, n),
    decreases n,
{
    if n > 0 {
        lemma_same_names(a, b, name, other, (n - 1) as nat);
    }
}

/// Once a value is put under a name, the name has that value and every
/// other name the value it had.
pub proof fn lemma_put(entries: Seq<(Seq<char>, PropView)>, name: Seq<char>, value: PropView)
    ensures
        lookup_upto(put(entries, name, value), name, put(entries, name, value).len()) == Some(
            value,
        ),
        forall|other: Seq<char>|
            other != name ==> lookup_upto(
                put(entries, name, value),
                other,
                put(entries, name, value).len(),
            ) == lookup_upto(entries, other, entries.len()),
{
    let after = put(entries, name, value);
    lemma_position(entries, name, entries.len());
    match position_upto(entries, name, entries.len()) {
        Some(i) => {
            lemma_same_names(entries, after, name, name, entries.len());
            lemma_position(after, name, after.len());
            assert forall|other: Seq<char>| other != name implies lookup_upto(
                after,
                other,
                after.len(),
            ) == lookup_upto(entries, other, entries.len()) by {
                lemma_same_names(entries, after, name, other, entries.len());
            }
        },
        None => {
            lemma_lookup_prefix(entries, after, name, entries.len());
            assert forall|other: Seq<char>| other != name implies lookup_upto(
                after,
                other,
                after.len(),
            ) == lookup_upto(entries, other, entries.len()) by {
                lemma_lookup_prefix(entries, after, other, entries.len());
            }
        },
    }
}

/// A lookup among the first `n` entries does not see the later ones.
pub proof fn lemma_lookup_prefix(
    a: Seq<(Seq<char>, PropView)>,
    b: Seq<(Seq<char>, PropView)>,
    name: Seq<char>,
    n: nat,
)
    requires
        n <= a.len(),
        n <= b.len(),
        forall|i: int| 0 <= i < n ==> a[i] == b[i],
    ensures
        lookup_upto(a, name, n) == lookup_upto(b, name, n),
    decreases n,
{
    if n > 0 {
        lemma_lookup_prefix(a, b, name, (n - 1) as nat);
    }
}

/// Where the first `i` entries lack the name and entry `i` has it, every
/// longer lookup finds the value of entry `i`.
pub proof fn lemma_lookup_found(
    entries: Seq<(Seq<char>, PropView)>,
    name: Seq<char>,
    i: nat,
    n: nat,
)
    requires
        i < n <= entries.len(),
        lookup_upto(entries, name, i) is None,
        entries[i as int].0 == name,
    ensures
        lookup_upto(entries, name, n) == Some(entries[i as int].1),
    decreases n,
{
    if n > i + 1 {
        lemma_lookup_found(entries, name, i, (n - 1) as nat);
    }
}

/// The two passes that resolve a style: the first follows the references to
/// files and addresses, the second those to properties of a feature.
#[derive(Clone, Copy, Debug, PartialEq, Eq, Structural)]
pub enum Phase {
    Fetch,
    Convert,
}

/// The mathematical content of a [`Reference`].
pub ghost enum ReferenceView {
    File(Seq<char>, StrEncoding),
    Url(Seq<char>, StrEncoding),
    Property(Seq<char>, PropView, StrEncoding),
}

/// What is to be read and decoded in place of a stand-in.
#[derive(Debug, PartialEq)]
pub enum Reference {
    /// The content of the file at a path.
    File(String, StrEncoding),
    /// What an address serves.
    Url(String, StrEncoding),
    /// The text of the value under a property's name.
    Property(String, PropValue, StrEncoding),
}

impl View for Reference {
    type V = ReferenceView;

    open spec fn view(&self) -> ReferenceView {
        match self {
            Reference::File(path, encoding) => ReferenceView::File(path@, *encoding),
            Reference::Url(url, encoding) => ReferenceView::Url(url@, *encoding),
            Reference::Property(name, value, encoding) => ReferenceView::Property(
                name@,
                value@,
                *encoding,
            ),
        }
    }
}

/// Reads and decodes what a reference points at, as a value of type `T` with
/// its own kind. Nothing is promised of what comes back: the functions that
/// call a loader take every answer as it comes.
pub trait Loader<T> {
    fn load(&self, reference: &Reference) -> Result<MagicValue<T>, String>;
}

/// Whether a value of this kind is a stand-in until the given pass has run.
pub open spec fn awaits(kind: KindView, phase: Phase) -> bool {
    match phase {
        Phase::Fetch => kind is Ron || kind is Json || kind is Http,
        Phase::Convert => kind is Prop,
    }
}

/// The message for a property that the feature at hand does not have.
pub open spec fn missing_message(name: Seq<char>) -> Seq<char> {
    "No "@ + name + " found in props"@
}

/// The message for references that lead to references beyond the depth
/// allowed.
pub open spec fn too_deep_message() -> Seq<char> {
    "references are nested too deeply"@
}

/// What a value of a kind has to be replaced by in a pass: nothing, or what
/// a reference points at; or the failure of a property that is not there.
pub open spec fn reference_of(kind: KindView, phase: Phase, props: Properties) -> Result<
    Option<ReferenceView>,
    Seq<char>,
> {
    match (phase, kind) {
        (Phase::Fetch, KindView::Ron(path)) => Ok(
            Some(ReferenceView::File(path, StrEncoding::Ron)),
        ),
        (Phase::Fetch, KindView::Json(path)) => Ok(
            Some(ReferenceView::File(path, StrEncoding::Json)),
        ),
        (Phase::Fetch, KindView::Http(url, encoding)) => Ok(
            Some(ReferenceView::Url(url, encoding)),
        ),
        (Phase::Convert, KindView::Prop(name, encoding)) => match props.lookup(name) {
            Some(value) => Ok(Some(ReferenceView::Property(name, value, encoding))),
            None => Err(missing_message(name)),
        },
        _ => Ok(None),
    }
}

/// The mathematical content of an answer of [`MagicValue::reference`].
pub open spec fn reference_view(r: Result<Option<Reference>, String>) -> Result<
    Option<ReferenceView>,
    Seq<char>,
> {
    match r {
        Ok(Some(reference)) => Ok(Some(reference@)),
        Ok(None) => Ok(None),
        Err(message) => Err(message@),
    }
}

/// The text of references nested too deeply.
pub fn too_deep() -> (message: String)
    ensures
        message@ == too_deep_message(),
{
    String::from_str("references are nested too deeply")
}

/// The text for a property that the feature at hand does not have.
pub fn missing_property(name: &String) -> (message: String)
    ensures
        message@ == missing_message(name@),
{
    let mut message = String::from_str("No ");
    message.append(name.as_str());
    message.append(" found in props");
    message
}

/// The mathematical content of the outcome of a pass.
pub open spec fn outcome_view(r: Result<(), String>) -> Result<(), Seq<char>> {
    match r {
        Ok(()) => Ok(()),
        Err(message) => Err(message@),
    }
}

/// The kind itself where a value of it awaits the pass, else none.
pub open spec fn awaiting(kind: KindView, phase: Phase) -> Option<KindView> {
    if awaits(kind, phase) {
        Some(kind)
    } else {
        None
    }
}

/// The first of two kinds that is there.
pub open spec fn first_of(a: Option<KindView>, b: Option<KindView>) -> Option<KindView> {
    match a {
        Some(kind) => Some(kind),
        None => b,
    }
}

/// The outcome of a pass as far as it is settled before anything is
/// loaded, given the kind of the first value that awaits the pass in the
/// order in which the pass goes through the values.
///
/// Where no value awaits the pass it succeeds. Where the first one refers to
/// a property that the feature lacks, it fails with the message for that
/// property; else, where no depth is left, with the message for references
/// nested too deeply. In every other case the first value is loaded, and the
/// outcome is not settled before.
pub open spec fn owed(first: Option<KindView>, phase: Phase, props: Properties, depth: usize) -> Option<
    Result<(), Seq<char>>,
> {
    match first {
        None => Some(Ok(())),
        Some(kind) => match reference_of(kind, phase, props) {
            Err(message) => Some(Err(message)),
            Ok(_) => if depth == 0 {
                Some(Err(too_deep_message()))
            } else {
                None
            },
        },
    }
}

/// The outcome of the first pass as far as it is settled before anything is
/// loaded: success where no value awaits the pass, and otherwise, where no
/// depth is left, the failure for references nested too deeply.
pub open spec fn owed_fetch(first: Option<KindView>, depth: usize) -> Option<Result<(), Seq<char>>> {
    match first {
        None => Some(Ok(())),
        Some(_) => if depth == 0 {
            Some(Err(too_deep_message()))
        } else {
            None
        },
    }
}

/// In the first pass no property is looked up: what is owed does not depend
/// on the properties.
pub proof fn lemma_owed_fetch(first: Option<KindView>, props: Properties, depth: usize)
    ensures
        owed(first, Phase::Fetch, props, depth) == owed_fetch(first, depth),
{
}

/// The mathematical content of a kind that may be there.
pub open spec fn first_view(first: Option<&MagicValueKind>) -> Option<KindView> {
    match first {
        Some(kind) => Some(kind@),
        None => None,
    }
}

/// The mathematical content of an outcome that may be settled.
pub open spec fn verdict_view(v: Option<Result<(), String>>) -> Option<Result<(), Seq<char>>> {
    match v {
        Some(r) => Some(outcome_view(r)),
        None => None,
    }
}

/// Whether two values come from the same place: they are of the same kind
/// and agree on whether they need scaling.
pub open spec fn same_source<T>(a: MagicValue<T>, b: MagicValue<T>) -> bool {
    a.kind == b.kind && a.need_scale == b.need_scale
}

impl MagicValueKind {
    /// The kind itself where a value of it awaits the pass, else none.
    pub fn awaiting(&self, phase: Phase) -> (r: Option<&MagicValueKind>)
        ensures
            first_view(r) == awaiting(self@, phase),
    {
        let waits: bool = match phase {
            Phase::Fetch => match self {
                MagicValueKind::Ron(_) => true,
                MagicValueKind::Json(_) => true,
                MagicValueKind::Http(_, _) => true,
                _ => false,
            },
            Phase::Convert => match self {
                MagicValueKind::Prop(_, _) => true,
                _ => false,
            },
        };
        if waits {
            Some(self)
        } else {
            None
        }
    }
}

/// The outcome of a pass as far as it is settled before anything is loaded:
/// [`owed`] of the kind of the first value that awaits the pass.
pub fn verdict(first: Option<&MagicValueKind>, phase: Phase, props: &Properties, depth: usize) -> (v:
    Option<Result<(), String>>)
    ensures
        verdict_view(v) == owed(first_view(first), phase, *props, depth),
{
    match first {
        None => Some(Ok(())),
        Some(kind) => {
            match (phase, kind) {
                (Phase::Convert, MagicValueKind::Prop(name, _)) => {
                    if props.get(name).is_none() {
                        return Some(Err(missing_property(name)));
                    }
                },
                _ => {},
            }
            if depth == 0 {
                Some(Err(too_deep()))
            } else {
                None
            }
        },
    }
}

/// The pass has failed with this message and left the value as it was.
pub open spec fn failed<T>(before: T, after: T, r: Result<(), String>, message: Seq<char>) -> bool {
    after == before && (r matches Err(m) && m@ == message)
}

/// What becomes of a value that stood for a reference, once what was loaded
/// for it has been resolved in turn with this outcome: on failure the value
/// is left as it was and the failure is that of the pass; on success the
/// value holds what came of it, and comes from where it came before.
pub open spec fn absorbed<T>(
    before: MagicValue<T>,
    out: MagicValue<T>,
    outcome: Result<(), String>,
    after: MagicValue<T>,
    r: Result<(), String>,
) -> bool {
    match outcome {
        Err(message) => r == Err::<(), String>(message) && after == before,
        Ok(()) => r is Ok && after == (MagicValue { inner: out.inner, ..before }),
    }
}

/// Whether `loaded` is an answer of the loader to a reference of this
/// content.
pub open spec fn loads<T, L: Loader<T>>(
    loader: L,
    reference: ReferenceView,
    loaded: Result<MagicValue<T>, String>,
) -> bool {
    exists|r: Reference| r@ == reference && #[trigger] call_ensures(L::load, (&loader, &r), loaded)
}

/// Names an answer of the loader together with what became of it.
pub open spec fn taking<T>(
    loaded: Result<MagicValue<T>, String>,
    out: MagicValue<T>,
    outcome: Result<(), String>,
) -> bool {
    true
}

/// Names what a loaded value is after the first pass, with the outcome of
/// that pass.
pub open spec fn passing<T>(mid: MagicValue<T>, outcome: Result<(), String>) -> bool {
    true
}

/// Whether `after` and `r` are what one pass at `depth` may make of a value
/// that has nothing resolvable inside, with the outcome.
///
/// A value that does not await the pass is left as it is, and the pass
/// succeeds. A value that refers to a property that the feature lacks is
/// left as it is, and the pass fails with the message for that property;
/// so it does with the message for references nested too deeply where no
/// depth is left. Else the loader is asked for what the reference points
/// at. Its failure is the failure of the pass, and the value is left as it
/// is. What it hands back is resolved in turn with one level of depth less
/// (see [`doc_resolved`]); a failure there is the failure of the pass, and
/// on success the value holds what came of it, and comes from where it
/// came before.
pub open spec fn leaf_resolved<T, L: Loader<T>>(
    before: MagicValue<T>,
    phase: Phase,
    props: Properties,
    loader: L,
    depth: usize,
    after: MagicValue<T>,
    r: Result<(), String>,
) -> bool
    decreases depth, 0nat,
{
    match reference_of(before.kind@, phase, props) {
        Err(message) => r matches Err(m) && m@ == message && after == before,
        Ok(None) => r is Ok && after == before,
        Ok(Some(reference)) => if depth == 0 {
            r matches Err(m) && m@ == too_deep_message() && after == before
        } else {
            exists|loaded: Result<MagicValue<T>, String>, out: MagicValue<T>, outcome: Result<(), String>| #[trigger]
                taking(loaded, out, outcome) && loads(loader, reference, loaded) && (match loaded {
                    Err(message) => r == Err::<(), String>(message) && after == before,
                    Ok(doc) => doc_resolved(
                        doc,
                        phase,
                        props,
                        loader,
                        (depth - 1) as usize,
                        out,
                        outcome,
                    ) && (match outcome {
                        Err(message) => r == Err::<(), String>(message) && after == before,
                        Ok(()) => r is Ok && after == (MagicValue { inner: out.inner, ..before }),
                    }),
                })
        },
    }
}

/// Whether `out` and `r` are what the passes may make of a value that was
/// loaded: the first pass, and after it, for a value loaded in the second
/// pass, the second; the first failure is the outcome.
pub open spec fn doc_resolved<T, L: Loader<T>>(
    doc: MagicValue<T>,
    phase: Phase,
    props: Properties,
    loader: L,
    depth: usize,
    out: MagicValue<T>,
    r: Result<(), String>,
) -> bool
    decreases depth, 1nat,
{
    exists|mid: MagicValue<T>, first: Result<(), String>| #[trigger]
        passing(mid, first) && leaf_resolved(doc, Phase::Fetch, props, loader, depth, mid, first)
            && (if first is Err || phase == Phase::Fetch {
            out == mid && r == first
        } else {
            leaf_resolved(mid, Phase::Convert, props, loader, depth, out, r)
        })
}

impl<T> MagicValue<T> {
    /// What the value has to be replaced by in a pass, if anything.
    pub fn reference(&self, phase: Phase, props: &Properties) -> (r: Result<
        Option<Reference>,
        String,
    >)
        ensures
            reference_view(r) == reference_of(self.kind@, phase, *props),
    {
        match phase {
            Phase::Fetch => match &self.kind {
                MagicValueKind::Ron(path) => Ok(
                    Some(Reference::File(path.clone(), StrEncoding::Ron)),
                ),
                MagicValueKind::Json(path) => Ok(
                    Some(Reference::File(path.clone(), StrEncoding::Json)),
                ),
                MagicValueKind::Http(url, encoding) => Ok(
                    Some(Reference::Url(url.clone(), *encoding)),
                ),
                _ => Ok(None),
            },
            Phase::Convert => match &self.kind {
                MagicValueKind::Prop(name, encoding) => match props.get(name) {
                    Some(value) => Ok(
                        Some(Reference::Property(name.clone(), value.clone(), *encoding)),
                    ),
                    None => Err(missing_property(name)),
                },
                _ => Ok(None),
            },
        }
    }

    /// Whether the value is a stand-in until the given pass has run.
    pub fn awaits(&self, phase: Phase) -> (r: bool)
        ensures
            r == awaits(self.kind@, phase),
    {
        match phase {
            Phase::Fetch => match &self.kind {
                MagicValueKind::Ron(_) => true,
                MagicValueKind::Json(_) => true,
                MagicValueKind::Http(_, _) => true,
                _ => false,
            },
            Phase::Convert => match &self.kind {
                MagicValueKind::Prop(_, _) => true,
                _ => false,
            },
        }
    }

    /// Takes the value of what was loaded in place of the stand-in. Where
    /// the value comes from stays as it was.
    pub fn absorb(&mut self, loaded: MagicValue<T>)
        ensures
            final(self).inner == loaded.inner,
            final(self).kind == old(self).kind,
            final(self).need_scale == old(self).need_scale,
    {
        self.inner = loaded.inner;
    }

    /// Resolves, in one pass, a value that has nothing resolvable inside.
    ///
    /// Where the value awaits the pass, what its reference points at is
    /// loaded, resolved in turn with one level of depth less (in the second
    /// pass by both passes, the first pass first), and taken in place of the
    /// stand-in. It fails where the property referred to is missing, where
    /// the depth is used up, and where loading fails. A value that does not
    /// await the pass is left as it is. The value after the pass and the
    /// outcome are what [`leaf_resolved`] says of the answers of the loader.
    pub fn resolve_leaf<L: Loader<T>>(
        &mut self,
        phase: Phase,
        props: &Properties,
        loader: &L,
        depth: usize,
    ) -> (r: Result<(), String>)
        ensures
            leaf_resolved(*old(self), phase, *props, *loader, depth, *final(self), r),
            final(self).kind == old(self).kind,
            final(self).need_scale == old(self).need_scale,
            !awaits(old(self).kind@, phase) ==> r is Ok && *final(self) == *old(self),
            reference_of(old(self).kind@, phase, *props) matches Err(message) ==> (r matches Err(m)
                && m@ == message),
            awaits(old(self).kind@, phase) && depth == 0 && reference_of(
                old(self).kind@,
                phase,
                *props,
            ) is Ok ==> (r matches Err(m) && m@ == too_deep_message()),
            r is Err ==> *final(self) == *old(self),
        decreases depth,
    {
        match self.reference(phase, props) {
            Err(message) => Err(message),
            Ok(None) => Ok(()),
            Ok(Some(reference)) => {
                if depth == 0 {
                    return Err(too_deep());
                }
                let loaded = load_from::<T, L>(loader, &reference);
                let ghost answer = loaded;
                assert(loads(*loader, reference@, answer));
                match loaded {
                    Err(message) => {
                        assert(taking(answer, *self, Ok::<(), String>(())));
                        Err(message)
                    },
                    Ok(doc) => {
                        let mut doc = doc;
                        let ghost given = doc;
                        let first = doc.resolve_leaf(Phase::Fetch, props, loader, depth - 1);
                        let ghost mid = doc;
                        let ghost fetched = first;
                        assert(passing(mid, fetched));
                        match first {
                            Err(message) => {
                                assert(doc_resolved(
                                    given,
                                    phase,
                                    *props,
                                    *loader,
                                    (depth - 1) as usize,
                                    mid,
                                    fetched,
                                ));
                                assert(taking(answer, mid, fetched));
                                return Err(message);
                            },
                            Ok(()) => {},
                        }
                        if phase == Phase::Convert {
                            let second = doc.resolve_leaf(Phase::Convert, props, loader, depth - 1);
                            let ghost out = doc;
                            let ghost converted = second;
                            assert(doc_resolved(
                                given,
                                phase,
                                *props,
                                *loader,
                                (depth - 1) as usize,
                                out,
                                converted,
                            ));
                            assert(taking(answer, out, converted));
                            match second {
                                Err(message) => {
                                    return Err(message);
                                },
                                Ok(()) => {},
                            }
                        } else {
                            assert(doc_resolved(
                                given,
                                phase,
                                *props,
                                *loader,
                                (depth - 1) as usize,
                                mid,
                                fetched,
                            ));
                            assert(taking(answer, mid, fetched));
                        }
                        self.absorb(doc);
                        Ok(())
                    },
                }
            },
        }
    }
}

/// What a loader hands back for a reference: the answer of its `load`, as
/// it comes.
pub fn load_from<T, L: Loader<T>>(loader: &L, reference: &Reference) -> (r: Result<
    MagicValue<T>,
    String,
>)
    ensures
        call_ensures(L::load, (loader, reference), r),
{
    loader.load(reference)
}

/// What following the references to files and addresses makes of a value
/// of a type, given a source of the type `S`.
pub trait Fetched<S>: Sized {
    /// Whether `after` and `r` are what following the references to files
    /// and addresses held in the value, to at most `depth` levels, may make
    /// of it, with the outcome.
    spec fn fetch_gives(
        &self,
        source: S,
        depth: usize,
        after: Self,
        r: Result<(), String>,
    ) -> bool;
}

/// What following the references to properties makes of a value of a type,
/// given a source of the type `S`.
pub trait Converted<S>: Sized {
    /// Whether `after` and `r` are what following the references to
    /// properties held in the value, for the feature whose properties are
    /// given and to at most `depth` levels, may make of it, with the
    /// outcome.
    spec fn convert_gives(
        &self,
        props: Properties,
        source: S,
        depth: usize,
        after: Self,
        r: Result<(), String>,
    ) -> bool;
}

/// A value that may hold references to files and addresses, and can follow
/// them.
pub trait MagicFetcher: Sized {
    /// Whether the value holds no reference to a file or an address, at any
    /// depth.
    spec fn fetched(&self) -> bool;

    /// Follows the references to files and addresses held in the value, to
    /// at most `depth` levels of references that lead to references. A value
    /// that holds none is left as it is. The value afterwards and the
    /// outcome are what the type says with [`Fetched::fetch_gives`].
    fn fetch<S: StyleSource>(&mut self, source: &S, depth: usize) -> (r: Result<(), String>) where
        Self: Fetched<S>,
        ensures
            old(self).fetched() ==> r is Ok && *final(self) == *old(self),
            old(self).fetch_gives(*source, depth, *final(self), r),
    ;
}

/// A value that may hold references to properties of a feature, and can
/// follow them.
pub trait MagicConverter: Sized {
    /// Whether the value holds no reference to a property, at any depth.
    spec fn converted(&self) -> bool;

    /// Follows the references to properties held in the value, for the
    /// feature whose properties are given. A value that holds none is left
    /// as it is. The value afterwards and the outcome are what the type
    /// says with [`Converted::convert_gives`].
    fn convert<S: StyleSource>(&mut self, props: &Properties, source: &S, depth: usize) -> (r:
        Result<(), String>) where Self: Converted<S>
        ensures
            old(self).converted() ==> r is Ok && *final(self) == *old(self),
            old(self).convert_gives(*props, *source, depth, *final(self), r),
    ;
}

/// What a value refers to in the first pass, if anything: a file or an
/// address.
pub open spec fn fetch_target(kind: KindView) -> Option<ReferenceView> {
    match kind {
        KindView::Ron(path) => Some(ReferenceView::File(path, StrEncoding::Ron)),
        KindView::Json(path) => Some(ReferenceView::File(path, StrEncoding::Json)),
        KindView::Http(url, encoding) => Some(ReferenceView::Url(url, encoding)),
        _ => None,
    }
}

/// In the first pass a value is replaced by what [`fetch_target`] names,
/// whatever the properties.
pub proof fn lemma_fetch_target(kind: KindView, props: Properties)
    ensures
        reference_of(kind, Phase::Fetch, props) == Ok::<Option<ReferenceView>, Seq<char>>(
            fetch_target(kind),
        ),
        awaits(kind, Phase::Fetch) <==> fetch_target(kind) is Some,
{
}

/// Whether `after` and `r` are what following the references to files and
/// addresses may make of a value, with the outcome.
///
/// A value that stands for a file or an address fails with the message
/// for references nested too deeply where no depth is left, and is left as
/// it is. Else the loader is asked for what the reference points at, and
/// its answer is taken (see [`took_fetched`]) with one level of depth
/// less. A value given in place keeps where it comes from, and the
/// references held in it are followed as its type says (see
/// [`Fetched::fetch_gives`]).
pub open spec fn value_fetched<T: MagicFetcher + Fetched<S>, S: StyleSource + Loader<T>>(
    before: MagicValue<T>,
    source: S,
    depth: usize,
    after: MagicValue<T>,
    r: Result<(), String>,
) -> bool
    decreases depth, 0nat,
{
    match fetch_target(before.kind@) {
        Some(reference) => if depth == 0 {
            failed(before, after, r, too_deep_message())
        } else {
            exists|loaded: Result<MagicValue<T>, String>| #[trigger]
                loads::<T, S>(source, reference, loaded) && took_fetched(
                    before,
                    loaded,
                    source,
                    (depth - 1) as usize,
                    after,
                    r,
                )
        },
        None => after.kind == before.kind && after.need_scale == before.need_scale
            && before.inner.fetch_gives(source, depth, after.inner, r),
    }
}

/// Whether `after` and `r` are what taking an answer of the loader may make
/// of a value that stands for a file or an address.
///
/// A failure of the loader is the failure of the pass, and the value is
/// left as it is. What was loaded has its own references followed (see
/// [`value_fetched`]); a failure there is the failure of the pass, and on
/// success the value holds what came of it (see [`absorbed`]).
pub open spec fn took_fetched<T: MagicFetcher + Fetched<S>, S: StyleSource + Loader<T>>(
    before: MagicValue<T>,
    loaded: Result<MagicValue<T>, String>,
    source: S,
    depth: usize,
    after: MagicValue<T>,
    r: Result<(), String>,
) -> bool
    decreases depth, 1nat,
{
    match loaded {
        Err(message) => r == Err::<(), String>(message) && after == before,
        Ok(value) => exists|out: MagicValue<T>, outcome: Result<(), String>| #[trigger]
            passing(out, outcome) && value_fetched(value, source, depth, out, outcome) && absorbed(
                before,
                out,
                outcome,
                after,
                r,
            ),
    }
}

/// Whether `after` and `r` are what following the references to
/// properties may make of a value, for the feature whose properties are
/// given, with the outcome.
///
/// A value that refers to a property that the feature lacks fails with the
/// message for that property, and one that refers to a property where no
/// depth is left with the message for references nested too deeply; either
/// is left as it is. Else the loader is asked for what the text of the
/// property holds, and its answer is taken (see [`took_converted`]) with
/// one level of depth less. Any other value keeps where it comes from, and
/// the references held in it are followed as its type says (see
/// [`Converted::convert_gives`]).
pub open spec fn value_converted<
    T: MagicFetcher + MagicConverter + Fetched<S> + Converted<S>,
    S: StyleSource + Loader<T>,
>(
    before: MagicValue<T>,
    props: Properties,
    source: S,
    depth: usize,
    after: MagicValue<T>,
    r: Result<(), String>,
) -> bool
    decreases depth, 0nat,
{
    match reference_of(before.kind@, Phase::Convert, props) {
        Err(message) => failed(before, after, r, message),
        Ok(Some(reference)) => if depth == 0 {
            failed(before, after, r, too_deep_message())
        } else {
            exists|loaded: Result<MagicValue<T>, String>| #[trigger]
                loads::<T, S>(source, reference, loaded) && took_converted(
                    before,
                    loaded,
                    props,
                    source,
                    (depth - 1) as usize,
                    after,
                    r,
                )
        },
        Ok(None) => after.kind == before.kind && after.need_scale == before.need_scale
            && before.inner.convert_gives(props, source, depth, after.inner, r),
    }
}

/// Whether `after` and `r` are what taking an answer of the loader may make
/// of a value that stands for a property.
///
/// A failure of the loader is the failure of the pass, and the value is
/// left as it is. What was loaded has its references to files and
/// addresses followed (see [`value_fetched`]), then those to properties
/// (see [`value_converted`]); the first failure is the failure of the pass,
/// and on success the value holds what came of it (see [`absorbed`]).
pub open spec fn took_converted<
    T: MagicFetcher + MagicConverter + Fetched<S> + Converted<S>,
    S: StyleSource + Loader<T>,
>(
    before: MagicValue<T>,
    loaded: Result<MagicValue<T>, String>,
    props: Properties,
    source: S,
    depth: usize,
    after: MagicValue<T>,
    r: Result<(), String>,
) -> bool
    decreases depth, 1nat,
{
    match loaded {
        Err(message) => r == Err::<(), String>(message) && after == before,
        Ok(value) => exists|
            mid: MagicValue<T>,
            first: Result<(), String>,
            out: MagicValue<T>,
            outcome: Result<(), String>,
        | #[trigger]
            passing_twice(mid, first, out, outcome) && value_fetched(value, source, depth, mid, first)
                && (if first is Err {
                out == mid && outcome == first
            } else {
                value_converted(mid, props, source, depth, out, outcome)
            }) && absorbed(before, out, outcome, after, r),
    }
}

/// Names what a loaded value is after each of the two passes, with the
/// outcome of each.
pub open spec fn passing_twice<T>(
    mid: MagicValue<T>,
    first: Result<(), String>,
    out: MagicValue<T>,
    outcome: Result<(), String>,
) -> bool {
    true
}

/// A value that stands for a property keeps no trace of the feature it
/// was last resolved for: whatever following the reference may make of one
/// value, it may make of every value that comes from the same place,
/// whatever that one held. On success both hold the same afterwards; on
/// failure each is left as it was.
pub proof fn lemma_convert_forgets<
    T: MagicFetcher + MagicConverter + Fetched<S> + Converted<S>,
    S: StyleSource + Loader<T>,
>(
    a: MagicValue<T>,
    b: MagicValue<T>,
    props: Properties,
    source: S,
    depth: usize,
    after: MagicValue<T>,
    r: Result<(), String>,
)
    requires
        same_source(a, b),
        awaits(a.kind@, Phase::Convert),
        value_converted(a, props, source, depth, after, r),
    ensures
        r is Ok ==> value_converted(b, props, source, depth, after, r),
        r is Err ==> after == a && value_converted(b, props, source, depth, b, r),
{
    match reference_of(a.kind@, Phase::Convert, props) {
        Ok(Some(reference)) => {
            if depth > 0 {
                let loaded = choose|loaded: Result<MagicValue<T>, String>| #[trigger]
                    loads::<T, S>(source, reference, loaded) && took_converted(
                        a,
                        loaded,
                        props,
                        source,
                        (depth - 1) as usize,
                        after,
                        r,
                    );
                match loaded {
                    Ok(value) => {
                        let (mid, first, out, outcome) = choose|
                            mid: MagicValue<T>,
                            first: Result<(), String>,
                            out: MagicValue<T>,
                            outcome: Result<(), String>,
                        | #[trigger]
                            passing_twice(mid, first, out, outcome) && value_fetched(
                                value,
                                source,
                                (depth - 1) as usize,
                                mid,
                                first,
                            ) && (if first is Err {
                                out == mid && outcome == first
                            } else {
                                value_converted(
                                    mid,
                                    props,
                                    source,
                                    (depth - 1) as usize,
                                    out,
                                    outcome,
                                )
                            }) && absorbed(a, out, outcome, after, r);
                        assert(passing_twice(mid, first, out, outcome));
                        if r is Ok {
                            assert(absorbed(b, out, outcome, after, r));
                            assert(took_converted(
                                b,
                                loaded,
                                props,
                                source,
                                (depth - 1) as usize,
                                after,
                                r,
                            ));
                        } else {
                            assert(absorbed(b, out, outcome, b, r));
                            assert(took_converted(
                                b,
                                loaded,
                                props,
                                source,
                                (depth - 1) as usize,
                                b,
                                r,
                            ));
                        }
                    },
                    Err(_) => {
                        assert(took_converted(b, loaded, props, source, (depth - 1) as usize, b, r));
                    },
                }
            }
        },
        _ => {},
    }
}

/// A value with nothing resolvable inside that awaits a pass keeps no
/// trace of what it held before: whatever the pass may make of one value,
/// it may make of every value that comes from the same place. On success
/// both hold the same afterwards; on failure each is left as it was.
pub proof fn lemma_leaf_forgets<T, L: Loader<T>>(
    a: MagicValue<T>,
    b: MagicValue<T>,
    phase: Phase,
    props: Properties,
    loader: L,
    depth: usize,
    after: MagicValue<T>,
    r: Result<(), String>,
)
    requires
        same_source(a, b),
        awaits(a.kind@, phase),
        leaf_resolved(a, phase, props, loader, depth, after, r),
    ensures
        r is Ok ==> leaf_resolved(b, phase, props, loader, depth, after, r),
        r is Err ==> after == a && leaf_resolved(b, phase, props, loader, depth, b, r),
{
    match reference_of(a.kind@, phase, props) {
        Ok(Some(reference)) => {
            if depth > 0 {
                let (loaded, out, outcome) = choose|
                    loaded: Result<MagicValue<T>, String>,
                    out: MagicValue<T>,
                    outcome: Result<(), String>,
                | #[trigger]
                    taking(loaded, out, outcome) && loads(loader, reference, loaded) && (
                    match loaded {
                        Err(message) => r == Err::<(), String>(message) && after == a,
                        Ok(doc) => doc_resolved(
                            doc,
                            phase,
                            props,
                            loader,
                            (depth - 1) as usize,
                            out,
                            outcome,
                        ) && (match outcome {
                            Err(message) => r == Err::<(), String>(message) && after == a,
                            Ok(()) => r is Ok && after == (MagicValue { inner: out.inner, ..a }),
                        }),
                    });
                assert(taking(loaded, out, outcome));
            }
        },
        _ => {},
    }
}

impl<T: MagicFetcher> MagicValue<T> {
    /// Follows the references to files and addresses: that of the value
    /// itself if it is one, else those held in the value.
    ///
    /// A value that stands for a file or an address is replaced by what is
    /// loaded from there, once that has been fetched in turn; this fails
    /// where the depth is used up and where loading fails. A value given in
    /// place that holds no such reference is left as it is. The value
    /// afterwards and the outcome are what [`value_fetched`] says of the
    /// answers of the source, and a failure leaves the value as it was
    /// wherever it is not a failure inside a value given in place.
    pub fn fetch<S: StyleSource + Loader<T>>(&mut self, source: &S, depth: usize) -> (r: Result<
        (),
        String,
    >) where T: Fetched<S>
        ensures
            value_fetched(*old(self), *source, depth, *final(self), r),
            final(self).kind == old(self).kind,
            final(self).need_scale == old(self).need_scale,
            !awaits(old(self).kind@, Phase::Fetch) && old(self).inner.fetched() ==> r is Ok
                && *final(self) == *old(self),
            awaits(old(self).kind@, Phase::Fetch) && depth == 0 ==> (r matches Err(m) && m@
                == too_deep_message()),
            awaits(old(self).kind@, Phase::Fetch) && r is Err ==> *final(self) == *old(self),
        decreases depth, 1nat,
    {
        let props = Properties::new();
        proof {
            lemma_fetch_target(self.kind@, props);
        }
        match self.reference(Phase::Fetch, &props) {
            Err(message) => Err(message),
            Ok(Some(reference)) => {
                if depth == 0 {
                    return Err(too_deep());
                }
                let loaded = load_from::<T, S>(source, &reference);
                let ghost answer = loaded;
                assert(loads::<T, S>(*source, reference@, answer));
                self.take_fetched(loaded, source, depth - 1)
            },
            Ok(None) => self.inner.fetch(source, depth),
        }
    }

    /// Takes what was loaded for a value that stands for a file or an
    /// address: the failure as it is, else the loaded value after it has
    /// been fetched in turn to at most `depth` further levels. A loaded
    /// value that is given in place and holds no such reference is taken as
    /// it is, whatever the depth; one that stands for a file or an address
    /// itself fails where no depth is left. The value afterwards and the
    /// outcome are what [`took_fetched`] says.
    pub fn take_fetched<S: StyleSource + Loader<T>>(
        &mut self,
        loaded: Result<MagicValue<T>, String>,
        source: &S,
        depth: usize,
    ) -> (r: Result<(), String>) where T: Fetched<S>
        ensures
            took_fetched(*old(self), loaded, *source, depth, *final(self), r),
            final(self).kind == old(self).kind,
            final(self).need_scale == old(self).need_scale,
            loaded matches Err(message) ==> r == Err::<(), String>(message) && *final(self) == *old(
                self,
            ),
            loaded matches Ok(value) ==> (!awaits(value.kind@, Phase::Fetch)
                && value.inner.fetched() ==> r is Ok && final(self).inner == value.inner),
            loaded matches Ok(value) ==> (awaits(value.kind@, Phase::Fetch) && depth == 0 ==> (
            r matches Err(m) && m@ == too_deep_message())),
            r is Err ==> *final(self) == *old(self),
        decreases depth, 2nat,
    {
        match loaded {
            Err(message) => Err(message),
            Ok(value) => {
                let mut value = value;
                let outcome = value.fetch(source, depth);
                let ghost out = value;
                let ghost given = outcome;
                assert(passing(out, given));
                match outcome {
                    Err(message) => Err(message),
                    Ok(()) => {
                        self.absorb(value);
                        Ok(())
                    },
                }
            },
        }
    }
}

impl<T: MagicFetcher + MagicConverter> MagicValue<T> {
    /// Follows the references to properties for the feature whose
    /// properties are given: that of the value itself if it is one, else
    /// those held in the value.
    ///
    /// A value that stands for a property is replaced by what is loaded from
    /// the property's text, once that has been fetched and converted in
    /// turn; this fails where the feature lacks the property, where the
    /// depth is used up and where loading fails. A value that is no such
    /// reference and holds none is left as it is. The value afterwards and
    /// the outcome are what [`value_converted`] says of the answers of the
    /// source, and a failure leaves the value as it was wherever it is not
    /// a failure inside a value that stands for no property.
    pub fn convert<S: StyleSource + Loader<T>>(
        &mut self,
        props: &Properties,
        source: &S,
        depth: usize,
    ) -> (r: Result<(), String>) where T: Fetched<S> + Converted<S>
        ensures
            value_converted(*old(self), *props, *source, depth, *final(self), r),
            final(self).kind == old(self).kind,
            final(self).need_scale == old(self).need_scale,
            !awaits(old(self).kind@, Phase::Convert) && old(self).inner.converted() ==> r is Ok
                && *final(self) == *old(self),
            reference_of(old(self).kind@, Phase::Convert, *props) matches Err(message) ==> (
            r matches Err(m) && m@ == message) && *final(self) == *old(self),
            awaits(old(self).kind@, Phase::Convert) && depth == 0 && reference_of(
                old(self).kind@,
                Phase::Convert,
                *props,
            ) is Ok ==> (r matches Err(m) && m@ == too_deep_message()) && *final(self) == *old(
                self,
            ),
            awaits(old(self).kind@, Phase::Convert) && r is Err ==> *final(self) == *old(self),
        decreases depth, 1nat,
    {
        match self.reference(Phase::Convert, props) {
            Err(message) => Err(message),
            Ok(Some(reference)) => {
                if depth == 0 {
                    return Err(too_deep());
                }
                let loaded = load_from::<T, S>(source, &reference);
                let ghost answer = loaded;
                assert(loads::<T, S>(*source, reference@, answer));
                self.take_converted(loaded, props, source, depth - 1)
            },
            Ok(None) => self.inner.convert(props, source, depth),
        }
    }

    /// Takes what was loaded for a value that stands for a property: the
    /// failure as it is, else the loaded value after it has been fetched and
    /// then converted in turn, each to at most `depth` further levels. A
    /// loaded value that is given in place and holds no reference is taken
    /// as it is, whatever the depth; one that stands for a file or an
    /// address itself fails where no depth is left. The value afterwards and
    /// the outcome are what [`took_converted`] says.
    pub fn take_converted<S: StyleSource + Loader<T>>(
        &mut self,
        loaded: Result<MagicValue<T>, String>,
        props: &Properties,
        source: &S,
        depth: usize,
    ) -> (r: Result<(), String>) where T: Fetched<S> + Converted<S>
        ensures
            took_converted(*old(self), loaded, *props, *source, depth, *final(self), r),
            final(self).kind == old(self).kind,
            final(self).need_scale == old(self).need_scale,
            loaded matches Err(message) ==> r == Err::<(), String>(message) && *final(self) == *old(
                self,
            ),
            loaded matches Ok(value) ==> (value.kind@ is Fixed && value.inner.fetched()
                && value.inner.converted() ==> r is Ok && final(self).inner == value.inner),
            loaded matches Ok(value) ==> (awaits(value.kind@, Phase::Fetch) && depth == 0 ==> (
            r matches Err(m) && m@ == too_deep_message())),
            r is Err ==> *final(self) == *old(self),
        decreases depth, 2nat,
    {
        match loaded {
            Err(message) => Err(message),
            Ok(value) => {
                let mut value = value;
                let first = value.fetch(source, depth);
                let ghost mid = value;
                let ghost fetched = first;
                match first {
                    Err(message) => {
                        assert(passing_twice(mid, fetched, mid, fetched));
                        return Err(message);
                    },
                    Ok(()) => {},
                }
                let outcome = value.convert(props, source, depth);
                let ghost out = value;
                let ghost given = outcome;
                assert(passing_twice(mid, fetched, out, given));
                match outcome {
                    Err(message) => Err(message),
                    Ok(()) => {
                        self.absorb(value);
                        Ok(())
                    },
                }
            },
        }
    }
}

/// The bit pattern of the double 1.0.
pub const ONE_DOUBLE: u64 = 0x3ff0_0000_0000_0000;

/// The bit pattern of the single 1.0.
pub const ONE_SINGLE: u32 = 0x3f80_0000;

/// The text of a scalar that needs no arithmetic to be written, if it is
/// one: `None` for the missing value, a text as it is, and `true` or `false`.
pub open spec fn plain_text(v: PropView) -> Option<Seq<char>> {
    match v {
        PropView::Null => Some("None"@),
        PropView::String(s) => Some(s),
        PropView::Boolean(b) => Some(
            if b {
                "true"@
            } else {
                "false"@
            },
        ),
        _ => None,
    }
}

/// Whether `text` is what `number_text` may give for a scalar.
pub open spec fn text_asked<F: Fn(&PropValue) -> String>(
    number_text: F,
    v: PropView,
    text: String,
) -> bool {
    exists|value: PropValue| value@ == v && #[trigger] number_text.ensures((&value,), text)
}

/// Whether `text` is a text of the scalar: its plain text where it has one,
/// else what `number_text` gives for it.
pub open spec fn text_follows<F: Fn(&PropValue) -> String>(
    v: PropView,
    number_text: F,
    text: String,
) -> bool {
    match plain_text(v) {
        Some(t) => text@ == t,
        None => text_asked(number_text, v, text),
    }
}

/// The mathematical content of a number or a failure.
pub open spec fn bits_view<B>(r: Result<B, String>) -> Result<B, Seq<char>> {
    match r {
        Ok(b) => Ok(b),
        Err(message) => Err(message@),
    }
}

/// The double that a scalar stands for where no arithmetic is needed to
/// find it: the double itself, one and zero for true and false, and a
/// failure for the missing value.
pub open spec fn plain_double(v: PropView) -> Option<Result<u64, Seq<char>>> {
    match v {
        PropView::Null => Some(Err("Cannot convert None to f64"@)),
        PropView::Float64(b) => Some(Ok(b)),
        PropView::Boolean(b) => Some(
            Ok(
                if b {
                    ONE_DOUBLE
                } else {
                    0
                },
            ),
        ),
        _ => None,
    }
}

/// Whether `answer` is what `number` may give for a scalar.
pub open spec fn double_asked<N: Fn(&PropValue) -> Result<u64, String>>(
    number: N,
    v: PropView,
    answer: Result<u64, String>,
) -> bool {
    exists|value: PropValue| value@ == v && #[trigger] number.ensures((&value,), answer)
}

/// Whether `answer` is the double of a scalar: the plain one where there is
/// one, else what `number` gives for it.
pub open spec fn double_follows<N: Fn(&PropValue) -> Result<u64, String>>(
    v: PropView,
    number: N,
    answer: Result<u64, String>,
) -> bool {
    match plain_double(v) {
        Some(d) => bits_view(answer) == d,
        None => double_asked(number, v, answer),
    }
}

/// The single that a scalar stands for where no arithmetic is needed to
/// find it.
pub open spec fn plain_single(v: PropView) -> Option<Result<u32, Seq<char>>> {
    match v {
        PropView::Null => Some(Err("Cannot convert None to f32"@)),
        PropView::Float32(b) => Some(Ok(b)),
        PropView::Boolean(b) => Some(
            Ok(
                if b {
                    ONE_SINGLE
                } else {
                    0
                },
            ),
        ),
        _ => None,
    }
}

/// Whether `answer` is what `number` may give for a scalar.
pub open spec fn single_asked<N: Fn(&PropValue) -> Result<u32, String>>(
    number: N,
    v: PropView,
    answer: Result<u32, String>,
) -> bool {
    exists|value: PropValue| value@ == v && #[trigger] number.ensures((&value,), answer)
}

/// Whether `answer` is the single of a scalar: the plain one where there is
/// one, else what `number` gives for it.
pub open spec fn single_follows<N: Fn(&PropValue) -> Result<u32, String>>(
    v: PropView,
    number: N,
    answer: Result<u32, String>,
) -> bool {
    match plain_single(v) {
        Some(d) => bits_view(answer) == d,
        None => single_asked(number, v, answer),
    }
}

/// The truth value of a text, if it has one: `true` and `false` are the
/// only texts that do.
pub open spec fn text_truth(s: Seq<char>) -> Option<bool> {
    if s == "true"@ {
        Some(true)
    } else if s == "false"@ {
        Some(false)
    } else {
        None
    }
}

/// What the standard library's error says of a text that spells no truth
/// value, as `str::parse::<bool>` gives it.
pub uninterp spec fn parse_bool_error(text: Seq<char>) -> Seq<char>;

/// `str::parse::<bool>`, with its error as a text. The standard library
/// accepts `true` and `false` and nothing else; what its error says is
/// given a name and not stated.
#[verifier::external_body]
fn parse_bool(s: &String) -> (r: Result<bool, String>)
    ensures
        match text_truth(s@) {
            Some(b) => r == Ok::<bool, String>(b),
            None => r matches Err(e) && e@ == parse_bool_error(s@),
        },
{
    s.parse::<bool>().map_err(|e| e.to_string())
}

/// The message for a text that could not be read, given what the reader
/// said of it.
pub open spec fn unread_message(detail: Seq<char>) -> Seq<char> {
    "Convert from string error: "@ + detail
}

/// The message for a text that could not be read, given what the reader
/// said of it.
pub fn unread(detail: &String) -> (message: String)
    ensures
        message@ == unread_message(detail@),
{
    let mut message = String::from_str("Convert from string error: ");
    message.append(detail.as_str());
    message
}

/// The message with which a scalar has no truth value: that for the
/// missing value, and for a text what the standard library says of it.
pub open spec fn no_truth_message(v: PropView) -> Seq<char> {
    match v {
        PropView::String(s) => unread_message(parse_bool_error(s)),
        _ => "Cannot convert None to bool"@,
    }
}

/// The truth value of a scalar where it has one: a number is true unless it
/// is a zero, a text has the truth value it spells.
pub open spec fn truth_of(v: PropView) -> Option<bool> {
    match v {
        PropView::Null => None,
        PropView::String(s) => text_truth(s),
        PropView::Float64(b) => Some(!(b == 0 || b == 0x8000_0000_0000_0000u64)),
        PropView::Float32(b) => Some(!(b == 0 || b == 0x8000_0000u32)),
        PropView::Int32(n) => Some(n != 0),
        PropView::Int64(n) => Some(n != 0),
        PropView::Boolean(b) => Some(b),
    }
}

impl PropValue {
    /// The scalar as a text. A number with a fraction is written by
    /// `number_text`; a whole number as the standard library writes it.
    pub fn to_string<F: Fn(&PropValue) -> String>(&self, number_text: &F) -> (text: String)
        requires
            forall|value: &PropValue| number_text.requires((value,)),
        ensures
            match self@ {
                PropView::Int32(n) => vstd::string::to_string_from_display_ensures::<i32>(&n, text),
                PropView::Int64(n) => vstd::string::to_string_from_display_ensures::<i64>(&n, text),
                v => text_follows(v, *number_text, text),
            },
    {
        match self {
            PropValue::String(s) => s.clone(),
            PropValue::Float64(_) => number_text(self),
            PropValue::Float32(_) => number_text(self),
            PropValue::Int32(n) => n.to_string(),
            PropValue::Int64(n) => n.to_string(),
            PropValue::Boolean(b) => {
                if *b {
                    String::from_str("true")
                } else {
                    String::from_str("false")
                }
            },
            PropValue::Null => String::from_str("None"),
        }
    }

    /// The scalar as a text, which the missing value does not have.
    pub fn try_into_string<F: Fn(&PropValue) -> String>(&self, number_text: &F) -> (r: Result<
        String,
        String,
    >)
        requires
            forall|value: &PropValue| number_text.requires((value,)),
        ensures
            match self@ {
                PropView::Null => r matches Err(m) && m@ == "Cannot convert None to String"@,
                PropView::Int32(n) => r matches Ok(text)
                    && vstd::string::to_string_from_display_ensures::<i32>(&n, text),
                PropView::Int64(n) => r matches Ok(text)
                    && vstd::string::to_string_from_display_ensures::<i64>(&n, text),
                v => r matches Ok(text) && text_follows(v, *number_text, text),
            },
    {
        match self {
            PropValue::Null => Err(String::from_str("Cannot convert None to String")),
            _ => Ok(self.to_string(number_text)),
        }
    }

    /// The double that the scalar stands for. A double is itself, true and
    /// false are one and zero, the missing value is a failure; every other
    /// scalar is asked of `number`.
    pub fn try_into_f64<N: Fn(&PropValue) -> Result<u64, String>>(&self, number: &N) -> (r: Result<
        u64,
        String,
    >)
        requires
            forall|value: &PropValue| number.requires((value,)),
        ensures
            double_follows(self@, *number, r),
    {
        match self {
            PropValue::Null => Err(String::from_str("Cannot convert None to f64")),
            PropValue::Float64(b) => Ok(*b),
            PropValue::Boolean(b) => {
                if *b {
                    Ok(ONE_DOUBLE)
                } else {
                    Ok(0)
                }
            },
            _ => number(self),
        }
    }

    /// The single that the scalar stands for. A single is itself, true and
    /// false are one and zero, the missing value is a failure; every other
    /// scalar is asked of `number`.
    pub fn try_into_f32<N: Fn(&PropValue) -> Result<u32, String>>(&self, number: &N) -> (r: Result<
        u32,
        String,
    >)
        requires
            forall|value: &PropValue| number.requires((value,)),
        ensures
            single_follows(self@, *number, r),
    {
        match self {
            PropValue::Null => Err(String::from_str("Cannot convert None to f32")),
            PropValue::Float32(b) => Ok(*b),
            PropValue::Boolean(b) => {
                if *b {
                    Ok(ONE_SINGLE)
                } else {
                    Ok(0)
                }
            },
            _ => number(self),
        }
    }

    /// The truth value of the scalar. A number is true unless it is a zero
    /// of either sign; a text must spell `true` or `false`; the missing
    /// value has none. Where there is none, it fails with
    /// [`no_truth_message`].
    pub fn try_into_bool(&self) -> (r: Result<bool, String>)
        ensures
            match truth_of(self@) {
                Some(b) => r == Ok::<bool, String>(b),
                None => r matches Err(m) && m@ == no_truth_message(self@),
            },
            self@ is Null ==> (r matches Err(m) && m@ == "Cannot convert None to bool"@),
    {
        match self {
            PropValue::Null => Err(String::from_str("Cannot convert None to bool")),
            PropValue::String(s) => match parse_bool(s) {
                Ok(b) => Ok(b),
                Err(e) => Err(unread(&e)),
            },
            PropValue::Float64(b) => Ok(!(*b == 0 || *b == 0x8000_0000_0000_0000u64)),
            PropValue::Float32(b) => Ok(!(*b == 0 || *b == 0x8000_0000u32)),
            PropValue::Int32(n) => Ok(*n != 0),
            PropValue::Int64(n) => Ok(*n != 0),
            PropValue::Boolean(b) => Ok(*b),
        }
    }
}

/// A truth value written as a text and read back is the same truth value.
pub proof fn lemma_truth_round_trip(b: bool)
    ensures
        plain_text(PropView::Boolean(b)) matches Some(text) && truth_of(PropView::String(text))
            == Some(b),
{
    reveal_strlit("true");
    reveal_strlit("false");
    assert("true"@.len() == 4);
    assert("false"@.len() == 5);
}

/// A text taken as a text is the text itself.
pub proof fn lemma_text_round_trip(s: Seq<char>)
    ensures
        plain_text(PropView::String(s)) == Some(s),
{
}

impl MagicValue<PropValue> {
    /// The double that the scalar held stands for.
    pub fn inner_try_into<N: Fn(&PropValue) -> Result<u64, String>>(&self, number: &N) -> (r:
        Result<u64, String>)
        requires
            forall|value: &PropValue| number.requires((value,)),
        ensures
            double_follows(self.inner@, *number, r),
    {
        self.inner.try_into_f64(number)
    }

    /// The scalar held as a text.
    pub fn to_string<F: Fn(&PropValue) -> String>(&self, number_text: &F) -> (text: String)
        requires
            forall|value: &PropValue| number_text.requires((value,)),
        ensures
            match self.inner@ {
                PropView::Int32(n) => vstd::string::to_string_from_display_ensures::<i32>(&n, text),
                PropView::Int64(n) => vstd::string::to_string_from_display_ensures::<i64>(&n, text),
                v => text_follows(v, *number_text, text),
            },
    {
        self.inner.to_string(number_text)
    }

    /// A scalar that stands in place.
    pub fn wrap<D: Into<PropValue>>(value: D) -> (r: Self)
        ensures
            r.kind@ is Fixed,
            !r.need_scale,
            call_ensures(D::into, (value,), r.inner),
    {
        MagicValue { inner: value.into(), kind: MagicValueKind::Fixed, need_scale: false }
    }
}

} // verus!
