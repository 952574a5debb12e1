use vstd::prelude::*;

verus! {

use crate::errors::FanError;

/// One discovered sensor sub-reading, as the backend hands it over:
/// the chip's identifying prefix, the feature's label, and the reading in
/// millidegrees Celsius. A field is `None` where the backend failed to
/// decode that part; such an entry is skipped, never fatal.
#[derive(Debug)]
pub struct SensorEntry {
    pub chip: Option<Vec<u8>>,
    pub label: Option<Vec<u8>>,
    pub value_mdeg: Option<i64>,
}

/// One line of the verbose per-package breakdown.
#[derive(Debug)]
pub struct SensorDetail {
    pub chip: Vec<u8>,
    pub label: Vec<u8>,
    pub value_mdeg: i64,
}

/// The result of one sampling call: the worst-case (maximum) package
/// temperature, with the full per-package breakdown when verbose
/// reporting asked for it.
#[derive(Debug)]
pub struct TemperatureReading {
    pub value_mdeg: i64,
    pub detail: Option<Vec<SensorDetail>>,
}

/// `needle` occurs contiguously somewhere in `haystack`.
pub open spec fn contains_seq(haystack: Seq<u8>, needle: Seq<u8>) -> bool {
    exists|i: int|
        0 <= i && i + needle.len() <= haystack.len() && #[trigger] haystack.subrange(
            i,
            i + needle.len(),
        ) == needle
}

/// The identifying prefix of a CPU package temperature chip: the ASCII
/// bytes of "coretemp".
pub open spec fn coretemp_tag() -> Seq<u8> {
    seq![99u8, 111u8, 114u8, 101u8, 116u8, 101u8, 109u8, 112u8]
}

/// The label marking a package-level (whole socket) reading: the ASCII
/// bytes of "Package".
pub open spec fn package_tag() -> Seq<u8> {
    seq![80u8, 97u8, 99u8, 107u8, 97u8, 103u8, 101u8]
}

/// A chip name names a CPU package sensor.
pub open spec fn is_package_sensor_name(chip: Seq<u8>) -> bool {
    contains_seq(chip, coretemp_tag())
}

/// A feature label names a package-level temperature.
pub open spec fn is_package_temperature_label(label: Seq<u8>) -> bool {
    contains_seq(label, package_tag())
}

/// Whether `needle` matches `haystack` at offset `i`.
fn match_at(haystack: &Vec<u8>, needle: &Vec<u8>, i: usize) -> (r: bool)
    requires
        i + needle@.len() <= haystack@.len(),
    ensures
        r == (haystack@.subrange(i as int, i + needle@.len()) == needle@),
{
    let hl: usize = haystack.len();
    let mut k: usize = 0;
    while k < needle.len()
        invariant
            hl == haystack@.len(),
            i + needle@.len() <= haystack@.len(),
            k <= needle@.len(),
            forall|m: int| 0 <= m < k ==> haystack@[i + m] == needle@[m],
        decreases needle@.len() - k,
    {
        if haystack[i + k] != needle[k] {
            proof {
                assert(haystack@.subrange(i as int, i + needle@.len())[k as int] == haystack@[i
                    + k]);
            }
            return false;
        }
        k = k + 1;
    }
    proof {
        assert(haystack@.subrange(i as int, i + needle@.len()) =~= needle@);
    }
    true
}

/// Byte-level substring search, the executable form of `contains_seq`.
pub fn contains_bytes(haystack: &Vec<u8>, needle: &Vec<u8>) -> (r: bool)
    ensures
        r == contains_seq(haystack@, needle@),
{
    if needle.len() > haystack.len() {
        return false;
    }
    let end = haystack.len() - needle.len();
    let mut i: usize = 0;
    while i <= end
        invariant
            needle@.len() <= haystack@.len(),
            end == haystack@.len() - needle@.len(),
            i <= end,
            forall|j: int|
                0 <= j < i ==> #[trigger] haystack@.subrange(j, j + needle@.len()) != needle@,
        decreases end - i,
    {
        if match_at(haystack, needle, i) {
            return true;
        }
        if i == end {
            return false;
        }
        i = i + 1;
    }
    false
}

/// A chip name (as handed over by the backend) names a CPU package sensor.
pub fn is_package_sensor(chip: &Vec<u8>) -> (r: bool)
    ensures
        r == is_package_sensor_name(chip@),
{
    let mut tag: Vec<u8> = Vec::new();
    tag.push(99);
    tag.push(111);
    tag.push(114);
    tag.push(101);
    tag.push(116);
    tag.push(101);
    tag.push(109);
    tag.push(112);
    proof {
        assert(tag@ =~= coretemp_tag());
    }
    contains_bytes(chip, &tag)
}

/// A feature label names a package-level temperature.
pub fn has_package_label(label: &Vec<u8>) -> (r: bool)
    ensures
        r == is_package_temperature_label(label@),
{
    let mut tag: Vec<u8> = Vec::new();
    tag.push(80);
    tag.push(97);
    tag.push(99);
    tag.push(107);
    tag.push(97);
    tag.push(103);
    tag.push(101);
    proof {
        assert(tag@ =~= package_tag());
    }
    contains_bytes(label, &tag)
}

/// An entry takes part in the aggregate: every part decoded, the chip a
/// package sensor, the label a package temperature.
pub open spec fn entry_qualifies(e: SensorEntry) -> bool {
    &&& e.chip matches Some(c) && is_package_sensor_name(c@)
    &&& e.label matches Some(l) && is_package_temperature_label(l@)
    &&& e.value_mdeg is Some
}

/// The reading of an entry (meaningful only where it qualifies).
pub open spec fn entry_value(e: SensorEntry) -> int {
    match e.value_mdeg {
        Some(v) => v as int,
        None => 0,
    }
}

/// The running maximum over the qualifying entries, folded from the
/// sentinel 0: a reading counts only when it exceeds everything seen so
/// far, so a scan that finds nothing — or only readings at or below
/// zero — stays at the sentinel.
pub open spec fn max_package_temp(entries: Seq<SensorEntry>) -> int
    decreases entries.len(),
{
    if entries.len() == 0 {
        0
    } else {
        let prev = max_package_temp(entries.drop_last());
        let e = entries.last();
        if entry_qualifies(e) && entry_value(e) > prev {
            entry_value(e)
        } else {
            prev
        }
    }
}

/// The verbose breakdown: chip, label and reading of every qualifying
/// entry, in scan order.
pub open spec fn package_details(entries: Seq<SensorEntry>) -> Seq<(Seq<u8>, Seq<u8>, int)>
    decreases entries.len(),
{
    if entries.len() == 0 {
        Seq::empty()
    } else {
        let rest = package_details(entries.drop_last());
        let e = entries.last();
        if entry_qualifies(e) {
            rest.push(
                (
                    match e.chip {
                        Some(c) => c@,
                        None => Seq::empty(),
                    },
                    match e.label {
                        Some(l) => l@,
                        None => Seq::empty(),
                    },
                    entry_value(e),
                ),
            )
        } else {
            rest
        }
    }
}

/// The breakdown a detail vector shows.
pub open spec fn detail_view(ds: Seq<SensorDetail>) -> Seq<(Seq<u8>, Seq<u8>, int)> {
    ds.map_values(|d: SensorDetail| (d.chip@, d.label@, d.value_mdeg as int))
}

/// An owned copy of a byte string.
fn copy_bytes(v: &Vec<u8>) -> (r: Vec<u8>)
    ensures
        r@ == v@,
{
    let mut r: Vec<u8> = Vec::new();
    let mut i: usize = 0;
    while i < v.len()
        invariant
            i <= v@.len(),
            r@ == v@.take(i as int),
        decreases v@.len() - i,
    {
        r.push(v[i]);
        proof {
            assert(r@ =~= v@.take(i + 1));
        }
        i = i + 1;
    }
    proof {
        assert(v@.take(v@.len() as int) =~= v@);
    }
    r
}

/// Aggregate one scan of discovered sensor entries into the worst-case
/// package temperature. Entries with undecoded parts are skipped, one bad
/// entry never aborts the scan; but a scan whose maximum stays at the
/// sentinel 0 fails — a zero reading is never taken to mean "fans at
/// minimum". With `verbose`, the full qualifying breakdown is returned
/// too; it does not affect the maximum.
pub fn get_temp(entries: &Vec<SensorEntry>, verbose: bool) -> (r: Result<
    TemperatureReading,
    FanError,
>)
    ensures
        max_package_temp(entries@) > 0 ==> (r matches Ok(reading) && {
            &&& reading.value_mdeg as int == max_package_temp(entries@)
            &&& verbose ==> (reading.detail matches Some(d) && detail_view(d@) == package_details(
                entries@,
            ))
            &&& !verbose ==> reading.detail is None
        }),
        max_package_temp(entries@) <= 0 ==> r == Err::<TemperatureReading, FanError>(
            FanError::NoPackageSensorFound,
        ),
{
    let mut max: i64 = 0;
    let mut detail: Vec<SensorDetail> = Vec::new();
    let mut i: usize = 0;
    while i < entries.len()
        invariant
            i <= entries@.len(),
            max as int == max_package_temp(entries@.take(i as int)),
            verbose ==> detail_view(detail@) == package_details(entries@.take(i as int)),
        decreases entries@.len() - i,
    {
        let e = &entries[i];
        let ghost prefix = entries@.take(i as int);
        match (&e.chip, &e.label, &e.value_mdeg) {
            (Some(chip), Some(label), Some(value)) => {
                if is_package_sensor(chip) && has_package_label(label) {
                    if verbose {
                        detail.push(
                            SensorDetail {
                                chip: copy_bytes(chip),
                                label: copy_bytes(label),
                                value_mdeg: *value,
                            },
                        );
                        proof {
                            assert(detail_view(detail@) =~= detail_view(detail@.drop_last()).push(
                                (chip@, label@, *value as int),
                            ));
                        }
                    }
                    if *value > max {
                        max = *value;
                    }
                }
            },
            _ => {},
        }
        proof {
            assert(entries@.take(i + 1).drop_last() =~= prefix);
            assert(entries@.take(i + 1).last() == entries@[i as int]);
        }
        i = i + 1;
    }
    proof {
        assert(entries@.take(entries@.len() as int) =~= entries@);
    }
    if max > 0 {
        Ok(
            TemperatureReading {
                value_mdeg: max,
                detail: if verbose {
                    Some(detail)
                } else {
                    None
                },
            },
        )
    } else {
        Err(FanError::NoPackageSensorFound)
    }
}

} // verus!
