use vstd::prelude::*;
use crate::double::{Double, double_text, push_double};
use crate::text::{
    int_text, join, fold_join, push_char, push_str, push_i64, fold_push,
    lemma_fold_join_is_join,
};
use crate::time::Timestamp;
use vstd::std_specs::convert::FromSpecImpl;
use crate::urlencode::{
    url_encode, url_encoded, value_encode, value_encoded, is_encoded_char, law_url_encoding_alphabet,
    law_url_encoding_injective,
};

verus! {

pub type Int = i32;

pub type Long = i64;

pub type Boolean = bool;

/// A value that is written in the Warp 10 input format.
pub trait Warp10Serializable {
    fn warp10_serialize(&self) -> String;
}

/// A geographic position given as a value (the `HH:` form).
#[derive(Debug, Clone, PartialEq)]
pub struct HHCode {
    pub lat: Double,
    pub lon: Double,
}

/// A quaternion value (the `Q:` form).
#[derive(Debug, Clone, PartialEq)]
pub struct Quaternions {
    pub w: Double,
    pub x: Double,
    pub y: Double,
    pub z: Double,
}

/// An item of a multi-value.
#[derive(Debug, PartialEq)]
pub enum MultiValueKind {
    UnamedGTS(UnamedGeoTimeSeries),
    Value(Value),
}

/// A point without class name nor labels: a time stamp, an optional
/// position and elevation, and a value.
#[derive(Debug, PartialEq)]
pub struct UnamedGeoTimeSeries {
    pub timestamp: Timestamp,
    pub lat: Option<Double>,
    pub lon: Option<Double>,
    pub elev: Option<Long>,
    pub value: Value,
}

/// A list of values written between brackets, `!` first when compressed.
#[derive(Debug, PartialEq)]
pub struct MultiValue {
    pub data: Vec<MultiValueKind>,
    pub compressed: bool,
}

/// The value of a data point.
#[derive(Debug, PartialEq)]
pub enum Value {
    Int(Int),
    Long(Long),
    Double(Double),
    Boolean(Boolean),
    String(String),
    HHCode(HHCode),
    Quaternions(Quaternions),
    BinaryB64(String),
    BinaryHex(String),
    MultiValue(MultiValue),
}

/// The position and optional elevation of a data point.
#[derive(Debug, Clone, PartialEq)]
pub struct GeoValue {
    pub lat: Double,
    pub lon: Double,
    pub elev: Option<Long>,
}

/// A label of a series: a name and a value.
#[derive(Debug, PartialEq)]
pub struct Label {
    pub name: String,
    pub value: String,
}

/// A data point of a named, labelled series.
#[derive(Debug, PartialEq)]
pub struct Data {
    pub date: Option<Timestamp>,
    pub geo: Option<GeoValue>,
    pub name: String,
    pub labels: Vec<Label>,
    pub value: Value,
}

impl HHCode {
    #[must_use]
    pub fn new(lat: Double, lon: Double) -> (r: Self)
        ensures
            r == (HHCode { lat, lon }),
    {
        HHCode { lat, lon }
    }
}

impl Quaternions {
    #[must_use]
    pub fn new(w: Double, x: Double, y: Double, z: Double) -> (r: Self)
        ensures
            r == (Quaternions { w, x, y, z }),
    {
        Quaternions { w, x, y, z }
    }
}

impl UnamedGeoTimeSeries {
    /// A point at `timestamp` without position nor elevation.
    #[must_use]
    pub fn new(timestamp: Timestamp, value: Value) -> (r: Self)
        ensures
            r == (UnamedGeoTimeSeries { timestamp, lat: None, lon: None, elev: None, value }),
    {
        Self::for_ts(timestamp, value)
    }

    /// A point at `timestamp` without position nor elevation.
    #[must_use]
    pub fn for_ts(timestamp: Timestamp, value: Value) -> (r: Self)
        ensures
            r == (UnamedGeoTimeSeries { timestamp, lat: None, lon: None, elev: None, value }),
    {
        UnamedGeoTimeSeries { timestamp, lat: None, lon: None, elev: None, value }
    }

    /// The same point at the position `lat`, `lon` with the elevation `elev`.
    #[must_use]
    pub fn with_geo(self, lat: Double, lon: Double, elev: Option<Long>) -> (r: Self)
        ensures
            r == (UnamedGeoTimeSeries { lat: Some(lat), lon: Some(lon), elev, ..self }),
    {
        let mut g = self;
        g.lat = Some(lat);
        g.lon = Some(lon);
        g.elev = elev;
        g
    }

    /// The same point with the elevation `elev`.
    #[must_use]
    pub fn with_elev(self, elev: Long) -> (r: Self)
        ensures
            r == (UnamedGeoTimeSeries { elev: Some(elev), ..self }),
    {
        let mut g = self;
        g.elev = Some(elev);
        g
    }

    /// Whether latitude and longitude are both given or both left out.
    #[must_use]
    pub fn validate(self) -> (ok: bool)
        ensures
            ok == is_valid_point(self),
    {
        self.lat.is_some() == self.lon.is_some()
    }
}

impl MultiValue {
    /// A compressed multi-value of `data`.
    #[must_use]
    pub fn new(data: Vec<MultiValueKind>) -> (r: Self)
        ensures
            r == (MultiValue { data, compressed: true }),
    {
        MultiValue { data, compressed: true }
    }

    /// The same multi-value, not compressed.
    #[must_use]
    pub fn no_compression(self) -> (r: Self)
        ensures
            r == (MultiValue { compressed: false, ..self }),
    {
        let mut mv = self;
        mv.compressed = false;
        mv
    }
}

impl GeoValue {
    #[must_use]
    pub fn new(lat: Double, lon: Double, elev: Option<Long>) -> (r: Self)
        ensures
            r == (GeoValue { lat, lon, elev }),
    {
        GeoValue { lat, lon, elev }
    }
}

impl Label {
    /// A label named `name` with the value `value`.
    #[must_use]
    pub fn new(name: &str, value: &str) -> (r: Self)
        ensures
            r.name@ == name@,
            r.value@ == value@,
    {
        Label { name: name.to_owned(), value: value.to_owned() }
    }
}

impl Data {
    /// A data point at `date`.
    #[must_use]
    pub fn new(date: Timestamp, geo: Option<GeoValue>, name: String, labels: Vec<Label>, value: Value) -> (r: Self)
        ensures
            r == (Data { date: Some(date), geo, name, labels, value }),
    {
        Data { date: Some(date), geo, name, labels, value }
    }

    /// A data point without time: Warp 10 gives it the time at which it is
    /// received.
    #[must_use]
    pub fn new_without_time(geo: Option<GeoValue>, name: String, labels: Vec<Label>, value: Value) -> (r: Self)
        ensures
            r == (Data { date: None, geo, name, labels, value }),
    {
        Data { date: None, geo, name, labels, value }
    }
}

impl From<Int> for Value {
    fn from(v: Int) -> (r: Self) {
        Value::Int(v)
    }
}

impl FromSpecImpl<Int> for Value {
    open spec fn obeys_from_spec() -> bool {
        true
    }

    open spec fn from_spec(v: Int) -> Value {
        Value::Int(v)
    }
}

impl From<Long> for Value {
    fn from(v: Long) -> (r: Self) {
        Value::Long(v)
    }
}

impl FromSpecImpl<Long> for Value {
    open spec fn obeys_from_spec() -> bool {
        true
    }

    open spec fn from_spec(v: Long) -> Value {
        Value::Long(v)
    }
}

impl From<Double> for Value {
    fn from(v: Double) -> (r: Self) {
        Value::Double(v)
    }
}

impl FromSpecImpl<Double> for Value {
    open spec fn obeys_from_spec() -> bool {
        true
    }

    open spec fn from_spec(v: Double) -> Value {
        Value::Double(v)
    }
}

impl From<Boolean> for Value {
    fn from(v: Boolean) -> (r: Self) {
        Value::Boolean(v)
    }
}

impl FromSpecImpl<Boolean> for Value {
    open spec fn obeys_from_spec() -> bool {
        true
    }

    open spec fn from_spec(v: Boolean) -> Value {
        Value::Boolean(v)
    }
}

impl From<String> for Value {
    fn from(v: String) -> (r: Self) {
        Value::String(v)
    }
}

impl FromSpecImpl<String> for Value {
    open spec fn obeys_from_spec() -> bool {
        true
    }

    open spec fn from_spec(v: String) -> Value {
        Value::String(v)
    }
}

impl From<HHCode> for Value {
    fn from(v: HHCode) -> (r: Self) {
        Value::HHCode(v)
    }
}

impl FromSpecImpl<HHCode> for Value {
    open spec fn obeys_from_spec() -> bool {
        true
    }

    open spec fn from_spec(v: HHCode) -> Value {
        Value::HHCode(v)
    }
}

impl From<Quaternions> for Value {
    fn from(v: Quaternions) -> (r: Self) {
        Value::Quaternions(v)
    }
}

impl FromSpecImpl<Quaternions> for Value {
    open spec fn obeys_from_spec() -> bool {
        true
    }

    open spec fn from_spec(v: Quaternions) -> Value {
        Value::Quaternions(v)
    }
}

impl From<MultiValue> for Value {
    fn from(v: MultiValue) -> (r: Self) {
        Value::MultiValue(v)
    }
}

impl FromSpecImpl<MultiValue> for Value {
    open spec fn obeys_from_spec() -> bool {
        true
    }

    open spec fn from_spec(v: MultiValue) -> Value {
        Value::MultiValue(v)
    }
}

impl<'a> From<&'a str> for Value {
    /// A string value holding the characters of `v`.
    fn from(v: &'a str) -> (r: Self)
        ensures
            r matches Value::String(s) && s@ == v@,
    {
        Value::String(v.to_owned())
    }
}

/// The result of this conversion is stated on `from` itself, by its
/// characters: the verifier knows a `String` by its characters only, so no
/// single spec value of `Value` is named here for `from_spec`.
impl<'a> FromSpecImpl<&'a str> for Value {
    open spec fn obeys_from_spec() -> bool {
        false
    }

    open spec fn from_spec(v: &'a str) -> Value {
        arbitrary()
    }
}

// ---------------------------------------------------------------------------
// The text of each value
// ---------------------------------------------------------------------------

/// The text of a value in the Warp 10 input format.
pub open spec fn value_text(v: Value) -> Seq<char>
    decreases v, 0nat,
{
    match v {
        Value::Int(i) => int_text(i as int),
        Value::Long(l) => int_text(l as int),
        Value::Double(d) => double_text(d),
        Value::Boolean(b) => if b {
            seq!['t', 'r', 'u', 'e']
        } else {
            seq!['f', 'a', 'l', 's', 'e']
        },
        Value::String(s) => seq!['\''] + value_encoded(s@) + seq!['\''],
        Value::HHCode(h) => seq!['H', 'H', ':'] + double_text(h.lat) + seq![':'] + double_text(h.lon),
        Value::Quaternions(q) => seq!['Q', ':'] + double_text(q.w) + seq![':'] + double_text(q.x)
            + seq![':'] + double_text(q.y) + seq![':'] + double_text(q.z),
        Value::BinaryB64(s) => seq!['b', '6', '4', ':'] + s@,
        Value::BinaryHex(s) => seq!['h', 'e', 'x', ':'] + s@,
        Value::MultiValue(mv) => multi_text(mv),
    }
}

/// The text of a multi-value: its items separated by spaces between
/// brackets, with `!` after the opening one when compressed.
pub open spec fn multi_text(mv: MultiValue) -> Seq<char>
    decreases mv, 0nat,
{
    let data = mv.data;
    proof {
        vstd::std_specs::vec::axiom_vec_decreases_to_view(data);
    }
    seq!['['] + (if mv.compressed { seq!['!'] } else { seq![] }) + items_text(data@, data@.len())
        + seq![']']
}

/// The first `n` items of a multi-value, separated by spaces.
pub open spec fn items_text(items: Seq<MultiValueKind>, n: nat) -> Seq<char>
    decreases items, n,
{
    if n == 0 || n > items.len() {
        seq![]
    } else if n == 1 {
        kind_text(items[0])
    } else {
        items_text(items, (n - 1) as nat).push(' ') + kind_text(items[n - 1])
    }
}

/// The text of one item of a multi-value.
pub open spec fn kind_text(k: MultiValueKind) -> Seq<char>
    decreases k, 0nat,
{
    match k {
        MultiValueKind::Value(v) => value_text(v),
        MultiValueKind::UnamedGTS(g) => gts_text(g),
    }
}

/// `lat:lon` where both are there, then `/elev` where the elevation is.
pub open spec fn coord_text(lat: Option<Double>, lon: Option<Double>, elev: Option<Long>) -> Seq<char> {
    (if lat is Some && lon is Some {
        double_text(lat->0) + seq![':'] + double_text(lon->0)
    } else {
        seq![]
    }) + (if elev is Some {
        seq!['/'] + int_text(elev->0 as int)
    } else {
        seq![]
    })
}

/// The text of a point without name: `micros/value`, or
/// `micros/coordinates/value` where it has a position or an elevation.
pub open spec fn gts_text(g: UnamedGeoTimeSeries) -> Seq<char>
    decreases g, 0nat,
{
    let coord = coord_text(g.lat, g.lon, g.elev);
    int_text(g.timestamp@) + seq!['/'] + (if coord.len() == 0 {
        seq![]
    } else {
        coord + seq!['/']
    }) + value_text(g.value)
}

/// The text of a position: `lat:lon/`, then the elevation where there is one.
pub open spec fn geo_text(g: GeoValue) -> Seq<char> {
    double_text(g.lat) + seq![':'] + double_text(g.lon) + seq!['/'] + (if g.elev is Some {
        int_text(g.elev->0 as int)
    } else {
        seq![]
    })
}

/// The text of a label: `name=value`, both percent-encoded.
pub open spec fn label_text(l: Label) -> Seq<char> {
    url_encoded(l.name@) + seq!['='] + url_encoded(l.value@)
}

/// The texts of the labels, folded with commas.
pub open spec fn labels_text(labels: Seq<Label>) -> Seq<char> {
    fold_join(label_texts(labels, labels.len()), ',')
}

/// The texts of the first `n` labels.
pub open spec fn label_texts(labels: Seq<Label>, n: nat) -> Seq<Seq<char>> {
    Seq::new(n, |j: int| label_text(labels[j]))
}

/// The line of a data point:
/// `micros/geo name{labels} value`, where `micros` is left out when the
/// point has no time and `geo` is `/` when it has no position.
pub open spec fn data_text(d: Data) -> Seq<char> {
    (if d.date is Some {
        int_text(d.date->0@)
    } else {
        seq![]
    }) + seq!['/'] + (if d.geo is Some {
        geo_text(d.geo->0)
    } else {
        seq!['/']
    }) + seq![' '] + url_encoded(d.name@) + seq!['{'] + labels_text(d.labels@) + seq!['}', ' ']
        + value_text(d.value)
}

// ---------------------------------------------------------------------------
// Writing the text
// ---------------------------------------------------------------------------

/// Appends the text of a value.
pub fn push_value(out: &mut String, v: &Value)
    ensures
        final(out)@ == old(out)@ + value_text(*v),
    decreases *v, 0nat,
{
    match v {
        Value::Int(i) => push_i64(out, *i as i64),
        Value::Long(l) => push_i64(out, *l),
        Value::Double(d) => push_double(out, d),
        Value::Boolean(b) => {
            if *b {
                push_str(out, "true");
                proof { reveal_strlit("true"); }
            } else {
                push_str(out, "false");
                proof { reveal_strlit("false"); }
            }
        },
        Value::String(s) => {
            push_char(out, '\'');
            let code = value_encode(s.as_str());
            push_str(out, code.as_str());
            push_char(out, '\'');
        },
        Value::HHCode(h) => {
            push_str(out, "HH:");
            proof { reveal_strlit("HH:"); }
            push_double(out, &h.lat);
            push_char(out, ':');
            push_double(out, &h.lon);
        },
        Value::Quaternions(q) => {
            push_str(out, "Q:");
            proof { reveal_strlit("Q:"); }
            push_double(out, &q.w);
            push_char(out, ':');
            push_double(out, &q.x);
            push_char(out, ':');
            push_double(out, &q.y);
            push_char(out, ':');
            push_double(out, &q.z);
        },
        Value::BinaryB64(b64) => {
            push_str(out, "b64:");
            proof { reveal_strlit("b64:"); }
            push_str(out, b64.as_str());
        },
        Value::BinaryHex(hex) => {
            push_str(out, "hex:");
            proof { reveal_strlit("hex:"); }
            push_str(out, hex.as_str());
        },
        Value::MultiValue(mv) => {
            proof {
                assert(decreases_to!(*v => (*v)->MultiValue_0));
            }
            push_multi(out, mv);
        },
    }
}

/// Appends the text of a multi-value.
pub fn push_multi(out: &mut String, mv: &MultiValue)
    ensures
        final(out)@ == old(out)@ + multi_text(*mv),
    decreases *mv, 0nat,
{
    push_char(out, '[');
    if mv.compressed {
        push_char(out, '!');
    }
    let ghost opened = out@;
    let n = mv.data.len();
    let mut i: usize = 0;
    while i < n
        invariant
            i <= n,
            n == mv.data@.len(),
            out@ == opened + items_text(mv.data@, i as nat),
        decreases n - i,
    {
        if i > 0 {
            push_char(out, ' ');
        }
        proof {
            vstd::std_specs::vec::axiom_vec_index_decreases(mv.data, i as int);
        }
        push_kind(out, &mv.data[i]);
        i = i + 1;
    }
    push_char(out, ']');
}

/// Appends the text of an item of a multi-value.
pub fn push_kind(out: &mut String, k: &MultiValueKind)
    ensures
        final(out)@ == old(out)@ + kind_text(*k),
    decreases *k, 0nat,
{
    match k {
        MultiValueKind::Value(v) => push_value(out, v),
        MultiValueKind::UnamedGTS(g) => push_gts(out, g),
    }
}

/// Appends `lat:lon` where both are there, then `/elev` where the elevation is.
fn push_coord(out: &mut String, lat: &Option<Double>, lon: &Option<Double>, elev: &Option<Long>)
    ensures
        final(out)@ == old(out)@ + coord_text(*lat, *lon, *elev),
{
    if let (Some(la), Some(lo)) = (lat, lon) {
        push_double(out, la);
        push_char(out, ':');
        push_double(out, lo);
    }
    if let Some(e) = elev {
        push_char(out, '/');
        push_i64(out, *e);
    }
}

/// Appends the text of a point without name.
pub fn push_gts(out: &mut String, g: &UnamedGeoTimeSeries)
    ensures
        final(out)@ == old(out)@ + gts_text(*g),
    decreases *g, 0nat,
{
    let mut coord = String::new();
    push_coord(&mut coord, &g.lat, &g.lon, &g.elev);
    push_i64(out, g.timestamp.micros());
    push_char(out, '/');
    if !coord.as_str().is_empty() {
        push_str(out, coord.as_str());
        push_char(out, '/');
    }
    push_value(out, &g.value);
}

/// Appends the text of a position.
fn push_geo(out: &mut String, g: &GeoValue)
    ensures
        final(out)@ == old(out)@ + geo_text(*g),
{
    push_double(out, &g.lat);
    push_char(out, ':');
    push_double(out, &g.lon);
    push_char(out, '/');
    if let Some(e) = g.elev {
        push_i64(out, e);
    }
}

/// Appends the text of a label.
fn push_label(out: &mut String, l: &Label)
    ensures
        final(out)@ == old(out)@ + label_text(*l),
{
    let name = url_encode(l.name.as_str());
    let value = url_encode(l.value.as_str());
    push_str(out, name.as_str());
    push_char(out, '=');
    push_str(out, value.as_str());
}

/// The labels folded with commas.
fn fold_labels(labels: &Vec<Label>) -> (r: String)
    ensures
        r@ == labels_text(labels@),
{
    let mut acc = String::new();
    let n = labels.len();
    let mut i: usize = 0;
    while i < n
        invariant
            i <= n,
            n == labels@.len(),
            acc@ == fold_join(label_texts(labels@, i as nat), ','),
        decreases n - i,
    {
        let mut cur = String::new();
        push_label(&mut cur, &labels[i]);
        let ghost prev = label_texts(labels@, i as nat);
        fold_push(&mut acc, cur.as_str(), ',');
        proof {
            let next = label_texts(labels@, (i + 1) as nat);
            assert(next.drop_last() == prev);
        }
        i = i + 1;
    }
    acc
}

/// Appends the line of a data point.
pub fn push_data(out: &mut String, d: &Data)
    ensures
        final(out)@ == old(out)@ + data_text(*d),
{
    let ghost start = out@;
    let mut geo = String::new();
    match &d.geo {
        Some(g) => push_geo(&mut geo, g),
        None => push_char(&mut geo, '/'),
    }
    let labels = fold_labels(&d.labels);
    let name = url_encode(d.name.as_str());
    if let Some(date) = &d.date {
        push_i64(out, date.micros());
    }
    push_char(out, '/');
    push_str(out, geo.as_str());
    push_char(out, ' ');
    push_str(out, name.as_str());
    push_char(out, '{');
    push_str(out, labels.as_str());
    push_char(out, '}');
    push_char(out, ' ');
    let ghost before_value = out@;
    push_value(out, &d.value);
    proof {
        let head = (if d.date is Some {
            int_text(d.date->0@)
        } else {
            seq![]
        }) + seq!['/'] + geo@ + seq![' '] + name@ + seq!['{'] + labels@ + seq!['}', ' '];
        assert(before_value == start + head);
        assert(data_text(*d) == head + value_text(d.value));
    }
}

impl Warp10Serializable for UnamedGeoTimeSeries {
    fn warp10_serialize(&self) -> (r: String)
        ensures
            r@ == gts_text(*self),
    {
        let mut out = String::new();
        push_gts(&mut out, self);
        out
    }
}

impl Warp10Serializable for MultiValue {
    fn warp10_serialize(&self) -> (r: String)
        ensures
            r@ == multi_text(*self),
    {
        let mut out = String::new();
        push_multi(&mut out, self);
        out
    }
}

impl Warp10Serializable for Value {
    fn warp10_serialize(&self) -> (r: String)
        ensures
            r@ == value_text(*self),
    {
        let mut out = String::new();
        push_value(&mut out, self);
        out
    }
}

impl Warp10Serializable for GeoValue {
    fn warp10_serialize(&self) -> (r: String)
        ensures
            r@ == geo_text(*self),
    {
        let mut out = String::new();
        push_geo(&mut out, self);
        out
    }
}

impl Warp10Serializable for Label {
    fn warp10_serialize(&self) -> (r: String)
        ensures
            r@ == label_text(*self),
    {
        let mut out = String::new();
        push_label(&mut out, self);
        out
    }
}

impl Warp10Serializable for Data {
    fn warp10_serialize(&self) -> (r: String)
        ensures
            r@ == data_text(*self),
    {
        let mut out = String::new();
        push_data(&mut out, self);
        out
    }
}

// ---------------------------------------------------------------------------
// Copies
// ---------------------------------------------------------------------------

impl Clone for Label {
    fn clone(&self) -> (r: Self)
        ensures
            r == *self,
    {
        Label { name: self.name.clone(), value: self.value.clone() }
    }
}

/// `b` is a copy of `a`: the same value, but that a multi-value's list may
/// be another list, whose items are copies of the items of `a`'s list.
pub open spec fn is_copy(a: Value, b: Value) -> bool
    decreases a, 0nat,
{
    match a {
        Value::MultiValue(m) => b matches Value::MultiValue(n) && is_multi_copy(m, n),
        _ => b == a,
    }
}

/// `b` is a copy of the multi-value `a`: as compressed, and with as many
/// items, each a copy of the item of `a` at its place.
pub open spec fn is_multi_copy(a: MultiValue, b: MultiValue) -> bool
    decreases a, 0nat,
{
    let data = a.data;
    proof {
        vstd::std_specs::vec::axiom_vec_decreases_to_view(data);
    }
    &&& b.compressed == a.compressed
    &&& b.data@.len() == data@.len()
    &&& items_copied(data@, b.data@, data@.len())
}

/// Each of the first `n` items of `b` is a copy of the item of `a` at its
/// place.
pub open spec fn items_copied(a: Seq<MultiValueKind>, b: Seq<MultiValueKind>, n: nat) -> bool
    decreases a, n,
{
    if n == 0 || n > a.len() {
        true
    } else {
        items_copied(a, b, (n - 1) as nat) && is_kind_copy(a[n - 1], b[n - 1])
    }
}

/// `b` is a copy of the item `a`: of the same kind, holding a copy of its
/// value or point.
pub open spec fn is_kind_copy(a: MultiValueKind, b: MultiValueKind) -> bool
    decreases a, 0nat,
{
    match a {
        MultiValueKind::Value(v) => b matches MultiValueKind::Value(w) && is_copy(v, w),
        MultiValueKind::UnamedGTS(g) => b matches MultiValueKind::UnamedGTS(h) && is_gts_copy(g, h),
    }
}

/// `b` is a copy of the point `a`: the same time, position and elevation,
/// and a copy of its value.
pub open spec fn is_gts_copy(a: UnamedGeoTimeSeries, b: UnamedGeoTimeSeries) -> bool
    decreases a, 0nat,
{
    &&& b.timestamp == a.timestamp
    &&& b.lat == a.lat
    &&& b.lon == a.lon
    &&& b.elev == a.elev
    &&& is_copy(a.value, b.value)
}

/// Where each of the first `n` items of `b` copies the item of `a` at its
/// place, `items_copied` holds of them.
proof fn lemma_items_copied(a: Seq<MultiValueKind>, b: Seq<MultiValueKind>, n: nat)
    requires
        n <= a.len(),
        forall|j: int| 0 <= j < n ==> is_kind_copy(#[trigger] a[j], b[j]),
    ensures
        items_copied(a, b, n),
    decreases n,
{
    if n > 0 {
        lemma_items_copied(a, b, (n - 1) as nat);
    }
}

/// Where the items of two lists have the same texts, so have their first `n`.
proof fn lemma_items_text_same(s1: Seq<MultiValueKind>, s2: Seq<MultiValueKind>, n: nat)
    requires
        n <= s1.len(),
        n <= s2.len(),
        forall|j: int| 0 <= j < n ==> kind_text(#[trigger] s1[j]) == kind_text(s2[j]),
    ensures
        items_text(s1, n) == items_text(s2, n),
    decreases n,
{
    if n > 1 {
        lemma_items_text_same(s1, s2, (n - 1) as nat);
    }
}

/// A copy of a value, with the same text.
fn clone_value(v: &Value) -> (r: Value)
    ensures
        value_text(r) == value_text(*v),
        is_copy(*v, r),
    decreases *v, 0nat,
{
    match v {
        Value::Int(i) => Value::Int(*i),
        Value::Long(l) => Value::Long(*l),
        Value::Double(d) => Value::Double(*d),
        Value::Boolean(b) => Value::Boolean(*b),
        Value::String(s) => Value::String(s.clone()),
        Value::HHCode(h) => Value::HHCode(HHCode { lat: h.lat, lon: h.lon }),
        Value::Quaternions(q) => Value::Quaternions(Quaternions { w: q.w, x: q.x, y: q.y, z: q.z }),
        Value::BinaryB64(s) => Value::BinaryB64(s.clone()),
        Value::BinaryHex(s) => Value::BinaryHex(s.clone()),
        Value::MultiValue(mv) => {
            proof {
                assert(decreases_to!(*v => (*v)->MultiValue_0));
            }
            Value::MultiValue(clone_multi(mv))
        },
    }
}

/// A copy of a multi-value, with the same text.
fn clone_multi(mv: &MultiValue) -> (r: MultiValue)
    ensures
        multi_text(r) == multi_text(*mv),
        is_multi_copy(*mv, r),
    decreases *mv, 0nat,
{
    let n = mv.data.len();
    let mut data: Vec<MultiValueKind> = Vec::new();
    let mut i: usize = 0;
    while i < n
        invariant
            i <= n,
            n == mv.data@.len(),
            data@.len() == i,
            forall|j: int| 0 <= j < i ==> kind_text(#[trigger] data@[j]) == kind_text(mv.data@[j]),
            forall|j: int| 0 <= j < i ==> is_kind_copy(#[trigger] mv.data@[j], data@[j]),
        decreases n - i,
    {
        proof {
            vstd::std_specs::vec::axiom_vec_index_decreases(mv.data, i as int);
        }
        let k = clone_kind(&mv.data[i]);
        data.push(k);
        i = i + 1;
    }
    proof {
        lemma_items_text_same(data@, mv.data@, n as nat);
        lemma_items_copied(mv.data@, data@, n as nat);
    }
    MultiValue { data, compressed: mv.compressed }
}

/// A copy of an item of a multi-value, with the same text.
fn clone_kind(k: &MultiValueKind) -> (r: MultiValueKind)
    ensures
        kind_text(r) == kind_text(*k),
        is_kind_copy(*k, r),
    decreases *k, 0nat,
{
    match k {
        MultiValueKind::Value(v) => MultiValueKind::Value(clone_value(v)),
        MultiValueKind::UnamedGTS(g) => MultiValueKind::UnamedGTS(clone_gts(g)),
    }
}

/// A copy of a point, with the same time, position, elevation and text.
fn clone_gts(g: &UnamedGeoTimeSeries) -> (r: UnamedGeoTimeSeries)
    ensures
        gts_text(r) == gts_text(*g),
        is_gts_copy(*g, r),
    decreases *g, 0nat,
{
    UnamedGeoTimeSeries {
        timestamp: g.timestamp,
        lat: g.lat,
        lon: g.lon,
        elev: g.elev,
        value: clone_value(&g.value),
    }
}

impl Clone for Value {
    /// A copy with the same text; equal to `self` but for a
    /// multi-value, whose items are copies of its items.
    fn clone(&self) -> (r: Self)
        ensures
            value_text(r) == value_text(*self),
            is_copy(*self, r),
            !(self is MultiValue) ==> r == *self,
    {
        clone_value(self)
    }
}

impl Clone for MultiValue {
    fn clone(&self) -> (r: Self)
        ensures
            multi_text(r) == multi_text(*self),
            is_multi_copy(*self, r),
    {
        clone_multi(self)
    }
}

impl Clone for MultiValueKind {
    fn clone(&self) -> (r: Self)
        ensures
            kind_text(r) == kind_text(*self),
            is_kind_copy(*self, r),
    {
        clone_kind(self)
    }
}

impl Clone for UnamedGeoTimeSeries {
    fn clone(&self) -> (r: Self)
        ensures
            gts_text(r) == gts_text(*self),
            is_gts_copy(*self, r),
    {
        clone_gts(self)
    }
}

impl Clone for Data {
    fn clone(&self) -> (r: Self)
        ensures
            data_text(r) == data_text(*self),
            r.date == self.date,
            r.geo == self.geo,
            r.name == self.name,
            r.labels@ == self.labels@,
            is_copy(self.value, r.value),
    {
        let labels = self.labels.clone();
        proof {
            assert(labels@ =~= self.labels@);
        }
        Data {
            date: self.date,
            geo: match &self.geo {
                Some(g) => Some(GeoValue { lat: g.lat, lon: g.lon, elev: g.elev }),
                None => None,
            },
            name: self.name.clone(),
            labels,
            value: clone_value(&self.value),
        }
    }
}

// ---------------------------------------------------------------------------
// Laws
// ---------------------------------------------------------------------------

/// A point is valid when it has both a latitude and a longitude or neither.
pub open spec fn is_valid_point(g: UnamedGeoTimeSeries) -> bool {
    g.lat is Some == g.lon is Some
}

/// Every way of building a point gives a valid one: a new point is valid,
/// and placing it or giving it an elevation keeps it valid.
pub proof fn law_points_stay_valid(
    g: UnamedGeoTimeSeries,
    timestamp: Timestamp,
    value: Value,
    lat: Double,
    lon: Double,
    elev: Option<Long>,
    e: Long,
)
    ensures
        is_valid_point(UnamedGeoTimeSeries { timestamp, lat: None, lon: None, elev: None, value }),
        is_valid_point(UnamedGeoTimeSeries { lat: Some(lat), lon: Some(lon), elev, ..g }),
        is_valid_point(g) ==> is_valid_point(UnamedGeoTimeSeries { elev: Some(e), ..g }),
{
}

/// The line of a timed data point is the line of the same point without
/// time, preceded by its time in microseconds.
pub proof fn law_timed_line(
    date: Timestamp,
    geo: Option<GeoValue>,
    name: String,
    labels: Vec<Label>,
    value: Value,
)
    ensures
        data_text(Data { date: Some(date), geo, name, labels, value }) == int_text(date@)
            + data_text(Data { date: None, geo, name, labels, value }),
{
    let rest = seq!['/'] + (if geo is Some {
        geo_text(geo->0)
    } else {
        seq!['/']
    }) + seq![' '] + url_encoded(name@) + seq!['{'] + labels_text(labels@) + seq!['}', ' ']
        + value_text(value);
    assert(data_text(Data { date: None, geo, name, labels, value }) == rest);
    assert(data_text(Data { date: Some(date), geo, name, labels, value }) == int_text(date@) + rest);
}

/// The line of a data point is never empty.
pub proof fn lemma_data_text_nonempty(d: Data)
    ensures
        data_text(d).len() > 0,
{
}

/// The labels are written one after the other, every one of them, in order,
/// separated by commas.
pub proof fn law_labels_joined(labels: Seq<Label>)
    ensures
        labels_text(labels) == join(label_texts(labels, labels.len()), ','),
        labels_text(labels) == join(Seq::new(labels.len(), |j: int| label_text(labels[j])), ','),
{
    let parts = label_texts(labels, labels.len());
    assert forall|i: int| 0 <= i < parts.len() implies #[trigger] parts[i].len() > 0 by {
        assert(parts[i] == label_text(labels[i]));
    }
    lemma_fold_join_is_join(parts, ',');
    assert(parts =~= Seq::new(labels.len(), |j: int| label_text(labels[j])));
}

/// The text of a label is its encoded name, `=`, then its encoded value.
pub proof fn law_label_text(l: Label)
    ensures
        label_text(l) == url_encoded(l.name@) + seq!['='] + url_encoded(l.value@),
{
}

/// Joining two pieces puts the separator between them.
proof fn lemma_join2(a: Seq<char>, b: Seq<char>, sep: char)
    ensures
        join(seq![a, b], sep) == a + seq![sep] + b,
{
    assert(seq![a, b].drop_last() =~= seq![a]);
    assert(join(seq![a], sep) == a);
    assert(seq![a, b].last() == b);
    assert(a.push(sep) =~= a + seq![sep]);
}

/// Joining four pieces puts the separator between each two neighbours.
proof fn lemma_join4(a: Seq<char>, b: Seq<char>, c: Seq<char>, d: Seq<char>, sep: char)
    ensures
        join(seq![a, b, c, d], sep) == a + seq![sep] + b + seq![sep] + c + seq![sep] + d,
{
    assert(seq![a, b, c, d].drop_last() =~= seq![a, b, c]);
    assert(seq![a, b, c].drop_last() =~= seq![a, b]);
    assert(seq![a, b].drop_last() =~= seq![a]);
    lemma_join2(a, b, sep);
    let j2 = join(seq![a, b], sep);
    let j3 = join(seq![a, b, c], sep);
    assert(seq![a, b, c].last() == c);
    assert(seq![a, b, c, d].last() == d);
    assert(j2 =~= a + seq![sep] + b);
    assert(j3 =~= a + seq![sep] + b + seq![sep] + c);
    assert(join(seq![a, b, c, d], sep) =~= a + seq![sep] + b + seq![sep] + c + seq![sep] + d);
}

/// The text of each kind of value: an integer as its decimal digits, a
/// double as `f64` writes it, a boolean as `true` or `false`, a string
/// between single quotes and encoded, a geohash position as `HH:` then its
/// latitude and longitude, a quaternion as `Q:` then `w`, `x`, `y` and `z`
/// in that order, all separated by `:`, and binary data after `b64:` or
/// `hex:`; a multi-value is written as `law_multi_text` says.
pub proof fn law_value_text(v: Value)
    ensures
        v matches Value::Int(i) ==> value_text(v) == int_text(i as int),
        v matches Value::Long(l) ==> value_text(v) == int_text(l as int),
        v matches Value::Double(d) ==> value_text(v) == double_text(d),
        v matches Value::Boolean(b) ==> value_text(v) == (if b {
            seq!['t', 'r', 'u', 'e']
        } else {
            seq!['f', 'a', 'l', 's', 'e']
        }),
        v matches Value::String(s) ==> value_text(v) == seq!['\''] + value_encoded(s@) + seq!['\''],
        v matches Value::HHCode(h) ==> value_text(v) == seq!['H', 'H', ':'] + join(
            seq![double_text(h.lat), double_text(h.lon)],
            ':',
        ),
        v matches Value::Quaternions(q) ==> value_text(v) == seq!['Q', ':'] + join(
            seq![double_text(q.w), double_text(q.x), double_text(q.y), double_text(q.z)],
            ':',
        ),
        v matches Value::BinaryB64(s) ==> value_text(v) == seq!['b', '6', '4', ':'] + s@,
        v matches Value::BinaryHex(s) ==> value_text(v) == seq!['h', 'e', 'x', ':'] + s@,
        v matches Value::MultiValue(mv) ==> value_text(v) == multi_text(mv),
{
    match v {
        Value::HHCode(h) => {
            lemma_join2(double_text(h.lat), double_text(h.lon), ':');
        },
        Value::Quaternions(q) => {
            lemma_join4(double_text(q.w), double_text(q.x), double_text(q.y), double_text(q.z), ':');
        },
        _ => {},
    }
}

/// The first `n` items of a list are their texts joined by single spaces.
proof fn lemma_items_joined(items: Seq<MultiValueKind>, n: nat)
    requires
        n <= items.len(),
    ensures
        items_text(items, n) == join(Seq::new(n, |j: int| kind_text(items[j])), ' '),
    decreases n,
{
    let parts = Seq::new(n, |j: int| kind_text(items[j]));
    if n > 1 {
        lemma_items_joined(items, (n - 1) as nat);
        assert(parts.drop_last() =~= Seq::new((n - 1) as nat, |j: int| kind_text(items[j])));
    } else if n == 0 {
        assert(parts.len() == 0);
    }
}

/// The text of a multi-value: `[`, then `!` when it is compressed, then the
/// texts of every one of its items, in order, separated by single spaces,
/// then `]`.
pub proof fn law_multi_text(mv: MultiValue)
    ensures
        multi_text(mv) == seq!['['] + (if mv.compressed { seq!['!'] } else { seq![] }) + join(
            Seq::new(mv.data@.len(), |j: int| kind_text(mv.data@[j])),
            ' ',
        ) + seq![']'],
{
    lemma_items_joined(mv.data@, mv.data@.len());
}

/// The text of a position: its latitude, `:`, its longitude, `/`, then its
/// elevation where it has one.
pub proof fn law_geo_text(g: GeoValue)
    ensures
        g.elev matches Some(e) ==> geo_text(g) == double_text(g.lat) + seq![':'] + double_text(g.lon)
            + seq!['/'] + int_text(e as int),
        g.elev is None ==> geo_text(g) == double_text(g.lat) + seq![':'] + double_text(g.lon) + seq![
            '/',
        ],
{
    if g.elev is None {
        assert(geo_text(g) =~= double_text(g.lat) + seq![':'] + double_text(g.lon) + seq!['/']);
    }
}

/// The text of a point without name: its time in microseconds, `/`, then,
/// where it has them, `lat:lon` and `/elevation` followed by `/`, then its
/// value. A point with neither position nor elevation is `micros/value`.
pub proof fn law_gts_text(g: UnamedGeoTimeSeries)
    ensures
        g.lat is Some && g.lon is Some && g.elev is Some ==> gts_text(g) == int_text(g.timestamp@)
            + seq!['/'] + double_text(g.lat->0) + seq![':'] + double_text(g.lon->0) + seq!['/']
            + int_text(g.elev->0 as int) + seq!['/'] + value_text(g.value),
        g.lat is Some && g.lon is Some && g.elev is None ==> gts_text(g) == int_text(g.timestamp@)
            + seq!['/'] + double_text(g.lat->0) + seq![':'] + double_text(g.lon->0) + seq!['/']
            + value_text(g.value),
        !(g.lat is Some && g.lon is Some) && g.elev is Some ==> gts_text(g) == int_text(g.timestamp@)
            + seq!['/', '/'] + int_text(g.elev->0 as int) + seq!['/'] + value_text(g.value),
        !(g.lat is Some && g.lon is Some) && g.elev is None ==> gts_text(g) == int_text(g.timestamp@)
            + seq!['/'] + value_text(g.value),
{
    let c = coord_text(g.lat, g.lon, g.elev);
    let ts = int_text(g.timestamp@);
    let vt = value_text(g.value);
    if g.lat is Some && g.lon is Some {
        let ll = double_text(g.lat->0) + seq![':'] + double_text(g.lon->0);
        assert(ll.len() > 0);
        if g.elev is Some {
            let e = int_text(g.elev->0 as int);
            assert(c =~= ll + seq!['/'] + e);
            assert(gts_text(g) =~= ts + seq!['/'] + double_text(g.lat->0) + seq![':'] + double_text(
                g.lon->0,
            ) + seq!['/'] + e + seq!['/'] + vt);
        } else {
            assert(c =~= ll);
            assert(gts_text(g) =~= ts + seq!['/'] + double_text(g.lat->0) + seq![':'] + double_text(
                g.lon->0,
            ) + seq!['/'] + vt);
        }
    } else {
        if g.elev is Some {
            let e = int_text(g.elev->0 as int);
            assert(c =~= seq!['/'] + e);
            assert(gts_text(g) =~= ts + seq!['/', '/'] + e + seq!['/'] + vt);
        } else {
            assert(c =~= seq![]);
            assert(gts_text(g) =~= ts + seq!['/'] + vt);
        }
    }
}

/// The line of a data point: its time in microseconds where it has one,
/// `/`, its position (or `/` where it has none), a space, its encoded name,
/// the texts of every one of its labels, in order, separated by commas
/// between braces, a space, and its value.
pub proof fn law_data_line(d: Data)
    ensures
        data_text(d) == (if d.date is Some {
            int_text(d.date->0@)
        } else {
            seq![]
        }) + seq!['/'] + (if d.geo is Some {
            geo_text(d.geo->0)
        } else {
            seq!['/']
        }) + seq![' '] + url_encoded(d.name@) + seq!['{'] + join(
            Seq::new(d.labels@.len(), |j: int| label_text(d.labels@[j])),
            ',',
        ) + seq!['}', ' '] + value_text(d.value),
{
    law_labels_joined(d.labels@);
}

/// The text of a label gives back its name and its value: two labels with the
/// same text have the same name and the same value.
pub proof fn law_label_text_injective(l1: Label, l2: Label)
    ensures
        label_text(l1) == label_text(l2) ==> l1.name@ == l2.name@ && l1.value@ == l2.value@,
{
    if label_text(l1) == label_text(l2) {
        let n1 = url_encoded(l1.name@);
        let n2 = url_encoded(l2.name@);
        law_url_encoding_alphabet(l1.name@);
        law_url_encoding_alphabet(l2.name@);
        let t = label_text(l1);
        assert(t[n1.len() as int] == '=');
        assert(label_text(l2)[n2.len() as int] == '=');
        if n1.len() < n2.len() {
            assert(t[n1.len() as int] == n2[n1.len() as int]);
            assert(is_encoded_char(n2[n1.len() as int]));
        } else if n2.len() < n1.len() {
            assert(t[n2.len() as int] == n1[n2.len() as int]);
            assert(is_encoded_char(n1[n2.len() as int]));
        }
        assert(n1 == t.take(n1.len() as int));
        assert(n2 == t.take(n2.len() as int));
        assert(url_encoded(l1.value@) == t.skip(n1.len() as int + 1));
        assert(url_encoded(l2.value@) == t.skip(n2.len() as int + 1));
        law_url_encoding_injective(l1.name@, l2.name@);
        law_url_encoding_injective(l1.value@, l2.value@);
    }
}

} // verus!
