//! The canonical record: the one shape that every source produces and every
//! sink consumes.

use crate::models::number::{
    bits_within, Float64, LATITUDE_LIMIT_BITS, LONGITUDE_LIMIT_BITS,
};
use crate::models::value::{copy_fields, Fields, FieldsModel};
use crate::utils::text::{hex_char, hex_digits, push_hex};
use crate::utils::time::{is_digit, is_fraction, is_offset_at, is_rfc3339, is_timestamp};
use vstd::prelude::*;
use vstd::string::*;

verus! {

/// One observation, normalized.
#[derive(Debug, PartialEq, Eq)]
pub struct ClimateRecord {
    /// The name of the source that produced the record.
    pub source_id: String,
    /// When the observation was made, as a timestamp with an offset.
    pub timestamp: String,
    pub latitude: Float64,
    pub longitude: Float64,
    pub location_name: Option<String>,
    /// The measurements, by name, in the order in which the source gave them.
    pub data: Fields,
}

/// The mathematical content of a [`ClimateRecord`].
pub struct RecordModel {
    pub source_id: Seq<char>,
    pub timestamp: Seq<char>,
    pub latitude: u64,
    pub longitude: u64,
    pub location_name: Option<Seq<char>>,
    pub data: FieldsModel,
}

impl View for ClimateRecord {
    type V = RecordModel;

    open spec fn view(&self) -> RecordModel {
        RecordModel {
            source_id: self.source_id@,
            timestamp: self.timestamp@,
            latitude: self.latitude.bits,
            longitude: self.longitude.bits,
            location_name: self.location_name.deep_view(),
            data: self.data.deep_view(),
        }
    }
}

impl DeepView for ClimateRecord {
    type V = RecordModel;

    open spec fn deep_view(&self) -> RecordModel {
        self@
    }
}

/// The identifier of the record with the given source, timestamp and
/// coordinates: the four parts, the coordinates as 16 digits in base 16 each,
/// joined by `|`. It depends on nothing else.
pub open spec fn record_key(
    source_id: Seq<char>,
    timestamp: Seq<char>,
    latitude: u64,
    longitude: u64,
) -> Seq<char> {
    source_id + "|"@ + timestamp + "|"@ + hex_digits(latitude as nat, 16) + "|"@ + hex_digits(
        longitude as nat,
        16,
    )
}

/// Whether a record is canonical: it names its source, its timestamp is a
/// valid instant, and its coordinates are a latitude and a longitude.
pub open spec fn is_canonical(record: RecordModel) -> bool {
    &&& record.source_id.len() > 0
    &&& is_rfc3339(record.timestamp)
    &&& bits_within(record.latitude, LATITUDE_LIMIT_BITS)
    &&& bits_within(record.longitude, LONGITUDE_LIMIT_BITS)
}

/// The identifier of the record with the given source, timestamp and
/// coordinates.
pub fn make_record_key(source_id: &str, timestamp: &str, latitude: Float64, longitude: Float64) -> (key:
    String)
    ensures
        key@ == record_key(source_id@, timestamp@, latitude.bits, longitude.bits),
{
    let head = source_id.to_owned().concat("|").concat(timestamp).concat("|");
    let with_latitude = push_hex(head, latitude.bits, 16).concat("|");
    push_hex(with_latitude, longitude.bits, 16)
}

impl ClimateRecord {
    /// The stable identifier of the record, derived from its source, its
    /// timestamp and its coordinates alone.
    pub fn record_id(&self) -> (key: String)
        ensures
            key@ == record_key(
                self@.source_id,
                self@.timestamp,
                self@.latitude,
                self@.longitude,
            ),
    {
        make_record_key(
            self.source_id.as_str(),
            self.timestamp.as_str(),
            self.latitude,
            self.longitude,
        )
    }

    /// Whether the record is canonical.
    pub fn is_canonical(&self) -> (yes: bool)
        ensures
            yes == is_canonical(self@),
    {
        self.source_id.as_str().unicode_len() > 0 && is_timestamp(self.timestamp.as_str())
            && self.latitude.is_latitude() && self.longitude.is_longitude()
    }
}

impl Clone for ClimateRecord {
    fn clone(&self) -> (copy: Self)
        ensures
            copy@ == self@,
    {
        ClimateRecord {
            source_id: self.source_id.clone(),
            timestamp: self.timestamp.clone(),
            latitude: self.latitude,
            longitude: self.longitude,
            location_name: match &self.location_name {
                Some(name) => Some(name.clone()),
                None => None,
            },
            data: copy_fields(&self.data),
        }
    }
}

/// 16 to the power of `exponent`.
pub open spec fn pow16(exponent: nat) -> nat
    decreases exponent,
{
    if exponent == 0 {
        1
    } else {
        16 * pow16((exponent - 1) as nat)
    }
}

/// Whether a text holds no `|`.
pub open spec fn free_of_bar(text: Seq<char>) -> bool {
    forall|i: int| 0 <= i < text.len() ==> #[trigger] text[i] != '|'
}

/// `width` digits are `width` characters.
pub proof fn lemma_hex_digits_len(value: nat, width: nat)
    ensures
        hex_digits(value, width).len() == width,
    decreases width,
{
    if width > 0 {
        lemma_hex_digits_len(value / 16, (width - 1) as nat);
    }
}

/// Numbers that fit in `width` digits and are written alike are the same.
pub proof fn lemma_hex_digits_differ(a: nat, b: nat, width: nat)
    requires
        a < pow16(width),
        b < pow16(width),
        hex_digits(a, width) == hex_digits(b, width),
    ensures
        a == b,
    decreases width,
{
    if width > 0 {
        let upper_a = hex_digits(a / 16, (width - 1) as nat);
        let upper_b = hex_digits(b / 16, (width - 1) as nat);
        let low_a = hex_char((a % 16) as int);
        let low_b = hex_char((b % 16) as int);
        lemma_hex_digits_len(a / 16, (width - 1) as nat);
        lemma_hex_digits_len(b / 16, (width - 1) as nat);
        assert(upper_a.push(low_a).last() == low_a);
        assert(upper_b.push(low_b).last() == low_b);
        assert(upper_a.push(low_a).drop_last() =~= upper_a);
        assert(upper_b.push(low_b).drop_last() =~= upper_b);
        assert(a % 16 == b % 16);
        lemma_hex_digits_differ(a / 16, b / 16, (width - 1) as nat);
    }
}

/// A timestamp that names a valid instant holds no `|`.
pub proof fn lemma_timestamp_free_of_bar(text: Seq<char>)
    requires
        is_rfc3339(text),
    ensures
        free_of_bar(text),
{
    let k = choose|k: int| 19 <= k < text.len() && is_fraction(text, 19, k) && #[trigger] is_offset_at(text, k);
    assert forall|i: int| 0 <= i < text.len() implies #[trigger] text[i] != '|' by {
        if i < 19 {
        } else if i < k {
            if i > 19 {
                assert(is_digit(text[i]));
            }
        } else {
        }
    }
}

/// Distinct observations have distinct identifiers: two records with a
/// timestamp that holds no `|`, as every valid timestamp does, have the same
/// identifier only where they have the same source, timestamp, latitude and
/// longitude.
pub proof fn lemma_record_key_tells_apart(
    source_a: Seq<char>,
    timestamp_a: Seq<char>,
    latitude_a: u64,
    longitude_a: u64,
    source_b: Seq<char>,
    timestamp_b: Seq<char>,
    latitude_b: u64,
    longitude_b: u64,
)
    requires
        free_of_bar(timestamp_a),
        free_of_bar(timestamp_b),
        record_key(source_a, timestamp_a, latitude_a, longitude_a) == record_key(
            source_b,
            timestamp_b,
            latitude_b,
            longitude_b,
        ),
    ensures
        source_a == source_b,
        timestamp_a == timestamp_b,
        latitude_a == latitude_b,
        longitude_a == longitude_b,
{
    reveal_strlit("|");
    let bar = "|"@;
    assert(bar.len() == 1 && bar[0] == '|');
    let key_a = record_key(source_a, timestamp_a, latitude_a, longitude_a);
    let key_b = record_key(source_b, timestamp_b, latitude_b, longitude_b);
    let lat_a = hex_digits(latitude_a as nat, 16);
    let lon_a = hex_digits(longitude_a as nat, 16);
    let lat_b = hex_digits(latitude_b as nat, 16);
    let lon_b = hex_digits(longitude_b as nat, 16);
    lemma_hex_digits_len(latitude_a as nat, 16);
    lemma_hex_digits_len(longitude_a as nat, 16);
    lemma_hex_digits_len(latitude_b as nat, 16);
    lemma_hex_digits_len(longitude_b as nat, 16);
    let head_a = source_a + bar + timestamp_a;
    let head_b = source_b + bar + timestamp_b;
    let n = key_a.len() as int;
    assert(key_a =~= head_a + bar + lat_a + bar + lon_a);
    assert(key_b =~= head_b + bar + lat_b + bar + lon_b);
    assert(n == head_a.len() + 34);
    assert(n == head_b.len() + 34);
    assert(lon_a =~= key_a.subrange(n - 16, n));
    assert(lon_b =~= key_b.subrange(n - 16, n));
    assert(lat_a =~= key_a.subrange(n - 33, n - 17));
    assert(lat_b =~= key_b.subrange(n - 33, n - 17));
    assert(head_a =~= key_a.subrange(0, n - 34));
    assert(head_b =~= key_b.subrange(0, n - 34));
    assert(pow16(16) == 0x1_0000_0000_0000_0000) by {
        assert(pow16(0) == 1);
        assert(pow16(1) == 0x10);
        assert(pow16(2) == 0x100);
        assert(pow16(3) == 0x1000);
        assert(pow16(4) == 0x1_0000);
        assert(pow16(5) == 0x10_0000);
        assert(pow16(6) == 0x100_0000);
        assert(pow16(7) == 0x1000_0000);
        assert(pow16(8) == 0x1_0000_0000);
        assert(pow16(9) == 0x10_0000_0000);
        assert(pow16(10) == 0x100_0000_0000);
        assert(pow16(11) == 0x1000_0000_0000);
        assert(pow16(12) == 0x1_0000_0000_0000);
        assert(pow16(13) == 0x10_0000_0000_0000);
        assert(pow16(14) == 0x100_0000_0000_0000);
        assert(pow16(15) == 0x1000_0000_0000_0000);
    }
    lemma_hex_digits_differ(latitude_a as nat, latitude_b as nat, 16);
    lemma_hex_digits_differ(longitude_a as nat, longitude_b as nat, 16);
    let m = head_a.len() as int;
    if timestamp_a.len() < timestamp_b.len() {
        let at = m - timestamp_a.len() - 1;
        assert(head_a[at] == '|');
        assert(head_b[at] == timestamp_b[at - source_b.len() - 1]);
    } else if timestamp_b.len() < timestamp_a.len() {
        let at = m - timestamp_b.len() - 1;
        assert(head_b[at] == '|');
        assert(head_a[at] == timestamp_a[at - source_a.len() - 1]);
    }
    assert(timestamp_a =~= head_a.subrange(m - timestamp_a.len(), m));
    assert(timestamp_b =~= head_b.subrange(m - timestamp_b.len(), m));
    assert(source_a =~= head_a.subrange(0, source_a.len() as int));
    assert(source_b =~= head_b.subrange(0, source_b.len() as int));
}

/// Canonical records have the same identifier exactly when they have the
/// same source, timestamp, latitude and longitude.
pub proof fn lemma_canonical_keys(a: RecordModel, b: RecordModel)
    requires
        is_canonical(a),
        is_canonical(b),
    ensures
        record_key(a.source_id, a.timestamp, a.latitude, a.longitude) == record_key(
            b.source_id,
            b.timestamp,
            b.latitude,
            b.longitude,
        ) <==> a.source_id == b.source_id && a.timestamp == b.timestamp && a.latitude
            == b.latitude && a.longitude == b.longitude,
{
    lemma_timestamp_free_of_bar(a.timestamp);
    lemma_timestamp_free_of_bar(b.timestamp);
    if record_key(a.source_id, a.timestamp, a.latitude, a.longitude) == record_key(
        b.source_id,
        b.timestamp,
        b.latitude,
        b.longitude,
    ) {
        lemma_record_key_tells_apart(
            a.source_id,
            a.timestamp,
            a.latitude,
            a.longitude,
            b.source_id,
            b.timestamp,
            b.latitude,
            b.longitude,
        );
    }
}

} // verus!
