//! Join logic: cross-reference config transforms with state data to produce
//! decoded records.
use crate::category::{categorize, category_of, Category};
use crate::json::{json_parse, parse_json, JsonValue};
use crate::schema::{ConfigInfo, DecodedRecord, EventInfo, TransformDef, TransformStateRow};
use crate::text::string_of;
use vstd::prelude::*;

verus! {

broadcast use vstd::string::group_string_axioms;

/// The views of a sequence of strings.
pub open spec fn views(v: Seq<String>) -> Seq<Seq<char>> {
    v.map_values(|s: String| s@)
}

/// The value of the first entry with key `k`, as a map lookup.
pub open spec fn map_get<V>(m: Seq<(i64, V)>, k: i64) -> Option<V>
    decreases m.len(),
{
    if m.len() == 0 {
        None
    } else if m[0].0 == k {
        Some(m[0].1)
    } else {
        map_get(m.drop_first(), k)
    }
}

/// Index of the first entry with key `k`.
pub fn find_key<V>(m: &Vec<(i64, V)>, k: i64) -> (r: Option<usize>)
    ensures
        match r {
            Some(i) => i < m@.len() && m@[i as int].0 == k && map_get(m@, k) == Some(m@[i as int].1),
            None => map_get(m@, k) is None,
        },
{
    let mut i: usize = 0;
    assert(m@.skip(0) =~= m@);
    while i < m.len()
        invariant
            i <= m.len(),
            map_get(m@, k) == map_get(m@.skip(i as int), k),
        decreases m.len() - i,
    {
        assert(m@.skip(i as int)[0] == m@[i as int]);
        assert(m@.skip(i as int).drop_first() =~= m@.skip(i + 1));
        if m[i].0 == k {
            return Some(i);
        }
        i = i + 1;
    }
    None
}

/// Assembled config-side data for a single transform, keyed by UUID.
#[derive(Debug)]
pub struct TransformLookup {
    /// The transform's UUID, which state rows refer to.
    pub uuid: String,
    /// The transform definition.
    pub def: TransformDef,
    /// Names of the events that feed the transform.
    pub event_names: Vec<String>,
    /// Config metadata of the transform.
    pub config: ConfigInfo,
}

/// The names of the given event ids, in order, skipping ids without a name.
pub open spec fn names_for(eids: Seq<i64>, names: Seq<(i64, String)>) -> Seq<Seq<char>>
    decreases eids.len(),
{
    if eids.len() == 0 {
        Seq::empty()
    } else {
        let rest = names_for(eids.drop_last(), names);
        match map_get(names, eids.last()) {
            Some(n) => rest.push(n@),
            None => rest,
        }
    }
}

/// The event names of a transform.
pub open spec fn transform_names(
    id: i64,
    names: Seq<(i64, String)>,
    transform_events: Seq<(i64, Vec<i64>)>,
) -> Seq<Seq<char>> {
    match map_get(transform_events, id) {
        Some(eids) => names_for(eids@, names),
        None => Seq::empty(),
    }
}

/// The config type and enablement of a transform (`Unknown`, disabled, when
/// the transform has no config).
pub open spec fn transform_config(id: i64, configs: Seq<(i64, ConfigInfo)>) -> (Seq<char>, bool) {
    match map_get(configs, id) {
        Some(c) => (c.config_type@, c.config_enabled),
        None => ("Unknown"@, false),
    }
}

/// `entry` is the lookup entry built for transform `id` with definition `def`.
pub open spec fn is_entry_for(
    entry: TransformLookup,
    id: i64,
    def: TransformDef,
    uuids: Seq<(i64, String)>,
    names: Seq<(i64, String)>,
    transform_events: Seq<(i64, Vec<i64>)>,
    configs: Seq<(i64, ConfigInfo)>,
) -> bool {
    &&& map_get(uuids, id) matches Some(u) && entry.uuid@ == u@
    &&& entry.def == def
    &&& views(entry.event_names@) == transform_names(id, names, transform_events)
    &&& (entry.config.config_type@, entry.config.config_enabled) == transform_config(id, configs)
}

/// The definitions that have a UUID mapping, in order.
pub open spec fn mapped_defs(defs: Seq<(i64, TransformDef)>, uuids: Seq<(i64, String)>) -> Seq<(i64, TransformDef)>
    decreases defs.len(),
{
    if defs.len() == 0 {
        Seq::empty()
    } else {
        let rest = mapped_defs(defs.drop_last(), uuids);
        if map_get(uuids, defs.last().0) is Some {
            rest.push(defs.last())
        } else {
            rest
        }
    }
}

/// The names of the given event ids.
fn collect_names(eids: &Vec<i64>, names: &Vec<(i64, String)>) -> (r: Vec<String>)
    ensures
        views(r@) == names_for(eids@, names@),
{
    let mut r: Vec<String> = Vec::new();
    let mut i: usize = 0;
    while i < eids.len()
        invariant
            i <= eids.len(),
            views(r@) == names_for(eids@.subrange(0, i as int), names@),
        decreases eids.len() - i,
    {
        assert(eids@.subrange(0, i + 1).drop_last() =~= eids@.subrange(0, i as int));
        match find_key(names, eids[i]) {
            Some(k) => {
                let n = names[k].1.clone();
                r.push(n);
                assert(views(r@) =~= names_for(eids@.subrange(0, i as int), names@).push(n@));
            },
            None => {},
        }
        i = i + 1;
    }
    assert(eids@.subrange(0, eids@.len() as int) =~= eids@);
    r
}

/// Build the UUID-keyed lookup table from config-side data: one entry per
/// transform that has a UUID, in the order of `defs`. The entries are
/// looked up by UUID with the last one winning, as map insertion does.
pub fn build_lookup(
    defs: Vec<(i64, TransformDef)>,
    uuids: &Vec<(i64, String)>,
    event_names: &Vec<(i64, String)>,
    transform_events: &Vec<(i64, Vec<i64>)>,
    config_info: &Vec<(i64, ConfigInfo)>,
) -> (r: Vec<TransformLookup>)
    ensures
        r@.len() == mapped_defs(defs@, uuids@).len(),
        forall|k: int|
            0 <= k < r@.len() ==> is_entry_for(
                #[trigger] r@[k],
                mapped_defs(defs@, uuids@)[k].0,
                mapped_defs(defs@, uuids@)[k].1,
                uuids@,
                event_names@,
                transform_events@,
                config_info@,
            ),
{
    let ghost orig = defs@;
    let mut defs = defs;
    let total = defs.len();
    let mut lookup: Vec<TransformLookup> = Vec::new();
    let mut taken: usize = 0;
    assert(orig.subrange(0, 0) =~= Seq::<(i64, TransformDef)>::empty());
    while defs.len() > 0
        invariant
            taken + defs@.len() == orig.len(),
            total == orig.len(),
            defs@ == orig.subrange(taken as int, orig.len() as int),
            lookup@.len() == mapped_defs(orig.subrange(0, taken as int), uuids@).len(),
            forall|k: int|
                0 <= k < lookup@.len() ==> is_entry_for(
                    #[trigger] lookup@[k],
                    mapped_defs(orig.subrange(0, taken as int), uuids@)[k].0,
                    mapped_defs(orig.subrange(0, taken as int), uuids@)[k].1,
                    uuids@,
                    event_names@,
                    transform_events@,
                    config_info@,
                ),
        decreases defs.len(),
    {
        let (id, def) = defs.remove(0);
        let ghost prev = orig.subrange(0, taken as int);
        let ghost next = orig.subrange(0, taken + 1);
        assert(next.drop_last() =~= prev);
        assert(next.last() == (id, def));
        taken = taken + 1;
        assert(defs@ =~= orig.subrange(taken as int, orig.len() as int));
        match find_key(uuids, id) {
            Some(ui) => {
                let uuid = uuids[ui].1.clone();
                let names = match find_key(transform_events, id) {
                    Some(ti) => collect_names(&transform_events[ti].1, event_names),
                    None => Vec::new(),
                };
                proof {
                    if map_get(transform_events@, id) is None {
                        assert(views(names@) =~= Seq::<Seq<char>>::empty());
                    }
                }
                let config = match find_key(config_info, id) {
                    Some(ci) => ConfigInfo {
                        config_type: config_info[ci].1.config_type.clone(),
                        config_enabled: config_info[ci].1.config_enabled,
                    },
                    None => ConfigInfo { config_type: string_of("Unknown"), config_enabled: false },
                };
                let entry = TransformLookup { uuid, def, event_names: names, config };
                let ghost before = lookup@;
                lookup.push(entry);
                assert forall|k: int| 0 <= k < lookup@.len() implies is_entry_for(
                    #[trigger] lookup@[k],
                    mapped_defs(next, uuids@)[k].0,
                    mapped_defs(next, uuids@)[k].1,
                    uuids@,
                    event_names@,
                    transform_events@,
                    config_info@,
                ) by {
                    if k < before.len() {
                        assert(lookup@[k] == before[k]);
                    }
                }
            },
            None => {},
        }
    }
    assert(orig.subrange(0, taken as int) =~= orig);
    lookup
}

/// The items a parsed key or value column contributes: an array's elements,
/// nothing for `null`, or the single value otherwise.
pub open spec fn json_items(v: JsonValue) -> Seq<JsonValue> {
    match v {
        JsonValue::Array(items, _) => items@,
        JsonValue::Null => Seq::empty(),
        other => seq![other],
    }
}

/// The smaller of two naturals.
pub open spec fn min_nat(a: nat, b: nat) -> nat {
    if a <= b {
        a
    } else {
        b
    }
}

/// `fields` pairs the names with the items, up to the shorter of the two.
pub open spec fn zipped_part(
    fields: Seq<(String, JsonValue)>,
    offset: int,
    names: Seq<Seq<char>>,
    items: Seq<JsonValue>,
) -> bool {
    forall|i: int|
        0 <= i < min_nat(names.len(), items.len()) ==> (#[trigger] fields[offset + i]).0@ == names[i]
            && fields[offset + i].1 == items[i]
}

/// The names of a transform's dimensions.
pub open spec fn dimension_names(def: TransformDef) -> Seq<Seq<char>> {
    def.dimensions@.map_values(|d: crate::schema::Dimension| d.name@)
}

/// The names of a transform's measures.
pub open spec fn measure_names(def: TransformDef) -> Seq<Seq<char>> {
    def.measures@.map_values(|m: crate::schema::Measure| m.name@)
}

/// `fields` is the zip of a definition with parsed key and value items:
/// dimensions with keys, then measures with values, each up to the shorter.
pub open spec fn zips_to(def: TransformDef, keys: Seq<JsonValue>, values: Seq<JsonValue>, fields: Seq<(String, JsonValue)>) -> bool {
    let nd = min_nat(def.dimensions@.len(), keys.len());
    let nm = min_nat(def.measures@.len(), values.len());
    &&& fields.len() == nd + nm
    &&& zipped_part(fields, 0, dimension_names(def), keys)
    &&& zipped_part(fields, nd as int, measure_names(def), values)
}

/// The elements of a parsed column, consumed.
fn into_items(v: JsonValue) -> (r: Vec<JsonValue>)
    ensures
        r@ == json_items(v),
{
    match v {
        JsonValue::Array(items, _) => items,
        JsonValue::Null => Vec::new(),
        other => {
            let mut r = Vec::new();
            r.push(other);
            assert(r@ =~= json_items(v));
            r
        },
    }
}

/// Append `names[i]` paired with `items[i]` for `i` below the shorter length.
fn push_zipped(fields: &mut Vec<(String, JsonValue)>, names: &Vec<String>, items: Vec<JsonValue>)
    ensures
        final(fields)@.len() == old(fields)@.len() + min_nat(names@.len(), items@.len()),
        final(fields)@.subrange(0, old(fields)@.len() as int) == old(fields)@,
        zipped_part(final(fields)@, old(fields)@.len() as int, views(names@), items@),
{
    let ghost start = fields@;
    let ghost orig = items@;
    let n = if names.len() < items.len() {
        names.len()
    } else {
        items.len()
    };
    let mut items = items;
    let mut i: usize = 0;
    while i < n
        invariant
            n == min_nat(names@.len(), orig.len()),
            i <= n,
            items@ == orig.subrange(i as int, orig.len() as int),
            fields@.len() == start.len() + i,
            fields@.subrange(0, start.len() as int) == start,
            forall|j: int|
                0 <= j < i ==> (#[trigger] fields@[start.len() + j]).0@ == names@[j]@ && fields@[start.len()
                    + j].1 == orig[j],
        decreases n - i,
    {
        let v = items.remove(0);
        let name = names[i].clone();
        let ghost before = fields@;
        fields.push((name, v));
        assert(fields@.subrange(0, start.len() as int) =~= before.subrange(0, start.len() as int));
        assert(fields@[start.len() + i as int] == (name, v));
        i = i + 1;
        assert(items@ =~= orig.subrange(i as int, orig.len() as int));
    }
}

/// The names of the dimensions of a definition.
fn dimension_name_list(def: &TransformDef) -> (r: Vec<String>)
    ensures
        views(r@) == dimension_names(*def),
{
    let mut r: Vec<String> = Vec::new();
    let mut i: usize = 0;
    while i < def.dimensions.len()
        invariant
            i <= def.dimensions.len(),
            views(r@) == dimension_names(*def).subrange(0, i as int),
        decreases def.dimensions.len() - i,
    {
        let n = def.dimensions[i].name.clone();
        let ghost before = r@;
        r.push(n);
        assert(r@ == before.push(n));
        assert(n@ == dimension_names(*def)[i as int]);
        assert(views(r@) =~= views(before).push(n@));
        i = i + 1;
        assert(views(r@) =~= dimension_names(*def).subrange(0, i as int));
    }
    assert(dimension_names(*def).subrange(0, i as int) =~= dimension_names(*def));
    r
}

/// The names of the measures of a definition.
fn measure_name_list(def: &TransformDef) -> (r: Vec<String>)
    ensures
        views(r@) == measure_names(*def),
{
    let mut r: Vec<String> = Vec::new();
    let mut i: usize = 0;
    while i < def.measures.len()
        invariant
            i <= def.measures.len(),
            views(r@) == measure_names(*def).subrange(0, i as int),
        decreases def.measures.len() - i,
    {
        let n = def.measures[i].name.clone();
        let ghost before = r@;
        r.push(n);
        assert(r@ == before.push(n));
        assert(n@ == measure_names(*def)[i as int]);
        assert(views(r@) =~= views(before).push(n@));
        i = i + 1;
        assert(views(r@) =~= measure_names(*def).subrange(0, i as int));
    }
    assert(measure_names(*def).subrange(0, i as int) =~= measure_names(*def));
    r
}

/// Zip dimension/measure names with parsed key/value columns into labeled
/// fields. A column that was not valid JSON (`None`) makes the record
/// undecodable.
pub fn zip_parsed(def: &TransformDef, keys: Option<JsonValue>, values: Option<JsonValue>) -> (r: Option<
    Vec<(String, JsonValue)>,
>)
    ensures
        r is Some <==> (keys is Some && values is Some),
        r matches Some(f) ==> zips_to(*def, json_items(keys->0), json_items(values->0), f@),
{
    let k = match keys {
        Some(k) => k,
        None => {
            return None;
        },
    };
    let v = match values {
        Some(v) => v,
        None => {
            return None;
        },
    };
    let ghost kv = k;
    let ghost vv = v;
    let key_items = into_items(k);
    let value_items = into_items(v);
    let dims = dimension_name_list(def);
    let meas = measure_name_list(def);
    let mut fields: Vec<(String, JsonValue)> = Vec::new();
    push_zipped(&mut fields, &dims, key_items);
    let ghost mid = fields@;
    push_zipped(&mut fields, &meas, value_items);
    proof {
        let nd = min_nat(def.dimensions@.len(), json_items(kv).len());
        assert(views(dims@).len() == def.dimensions@.len());
        assert(views(meas@).len() == def.measures@.len());
        assert forall|i: int| 0 <= i < nd implies (#[trigger] fields@[0 + i]).0@ == dimension_names(
            *def,
        )[i] && fields@[0 + i].1 == json_items(kv)[i] by {
            assert(fields@.subrange(0, mid.len() as int)[i] == mid[0 + i]);
        }
    }
    Some(fields)
}

/// Zip dimension/measure names with the key/value JSON texts of a state row
/// into labeled fields. A text that is not valid JSON makes the record
/// undecodable (`None`).
pub fn zip_fields(def: &TransformDef, key_json: &str, value_json: &str) -> (r: Option<Vec<(String, JsonValue)>>)
    ensures
        r is Some <==> (json_parse(key_json@) is Some && json_parse(value_json@) is Some),
        r matches Some(f) ==> zips_to(
            *def,
            json_items(json_parse(key_json@)->0),
            json_items(json_parse(value_json@)->0),
            f@,
        ),
{
    let keys = parse_json(key_json);
    let values = parse_json(value_json);
    zip_parsed(def, keys, values)
}

/// The last lookup entry with the given UUID (later entries replace earlier ones).
pub open spec fn entry_index(lookup: Seq<TransformLookup>, uuid: Seq<char>) -> Option<int>
    decreases lookup.len(),
{
    if lookup.len() == 0 {
        None
    } else if lookup.last().uuid@ == uuid {
        Some(lookup.len() - 1)
    } else {
        entry_index(lookup.drop_last(), uuid)
    }
}

/// The category of a transform: that of its first event, else `Other`.
pub open spec fn first_event_category(names: Seq<Seq<char>>) -> Category {
    if names.len() > 0 {
        category_of(names[0])
    } else {
        Category::Other
    }
}

/// A row can be decoded: its UUID is known and both columns are valid JSON.
pub open spec fn decodable(lookup: Seq<TransformLookup>, row: TransformStateRow) -> bool {
    &&& entry_index(lookup, row.transform_uuid@) is Some
    &&& json_parse(row.transform_key@) is Some
    &&& json_parse(row.transform_value@) is Some
}

/// `rec` is the record decoded from `row` with the entry for its UUID.
pub open spec fn decodes_to(lookup: Seq<TransformLookup>, row: TransformStateRow, rec: DecodedRecord) -> bool {
    let e = lookup[entry_index(lookup, row.transform_uuid@)->0];
    &&& views(rec.event_names@) == views(e.event_names@)
    &&& rec.transform_name@ == e.def.name@
    &&& rec.category == first_event_category(views(e.event_names@))
    &&& rec.config_type@ == e.config.config_type@
    &&& rec.config_enabled == e.config.config_enabled
    &&& zips_to(
        e.def,
        json_items(json_parse(row.transform_key@)->0),
        json_items(json_parse(row.transform_value@)->0),
        rec.fields@,
    )
    &&& rec.event_count == row.event_count
}

/// The rows that can be decoded, in order.
pub open spec fn decodable_rows(lookup: Seq<TransformLookup>, rows: Seq<TransformStateRow>) -> Seq<TransformStateRow>
    decreases rows.len(),
{
    if rows.len() == 0 {
        Seq::empty()
    } else {
        let rest = decodable_rows(lookup, rows.drop_last());
        if decodable(lookup, rows.last()) {
            rest.push(rows.last())
        } else {
            rest
        }
    }
}

/// Index of the last lookup entry with the given UUID.
fn find_entry(lookup: &Vec<TransformLookup>, uuid: &str) -> (r: Option<usize>)
    ensures
        match r {
            Some(i) => i < lookup@.len() && entry_index(lookup@, uuid@) == Some(i as int),
            None => entry_index(lookup@, uuid@) is None,
        },
{
    let mut i = lookup.len();
    assert(lookup@.subrange(0, i as int) =~= lookup@);
    while i > 0
        invariant
            i <= lookup.len(),
            entry_index(lookup@, uuid@) == entry_index(lookup@.subrange(0, i as int), uuid@),
        decreases i,
    {
        assert(lookup@.subrange(0, i as int).last() == lookup@[i - 1]);
        assert(lookup@.subrange(0, i as int).drop_last() =~= lookup@.subrange(0, i - 1));
        if crate::text::str_eq(lookup[i - 1].uuid.as_str(), uuid) {
            return Some(i - 1);
        }
        i = i - 1;
    }
    None
}

/// A copy of a list of strings.
pub fn copy_strings(v: &Vec<String>) -> (r: Vec<String>)
    ensures
        r@ == v@,
{
    let mut r: Vec<String> = Vec::new();
    let mut i: usize = 0;
    while i < v.len()
        invariant
            i <= v.len(),
            r@ == v@.subrange(0, i as int),
        decreases v.len() - i,
    {
        r.push(v[i].clone());
        i = i + 1;
        assert(r@ =~= v@.subrange(0, i as int));
    }
    assert(r@ =~= v@);
    r
}

/// Decode all state rows against the lookup table. Rows whose UUID is
/// unknown, or whose columns were not valid JSON, are skipped; the others
/// become records, in row order.
pub fn decode(lookup: &Vec<TransformLookup>, rows: Vec<TransformStateRow>) -> (r: Vec<DecodedRecord>)
    ensures
        r@.len() == decodable_rows(lookup@, rows@).len(),
        forall|k: int|
            0 <= k < r@.len() ==> decodes_to(lookup@, decodable_rows(lookup@, rows@)[k], #[trigger] r@[k]),
{
    let ghost orig = rows@;
    let mut rows = rows;
    let total = rows.len();
    let mut records: Vec<DecodedRecord> = Vec::new();
    let mut taken: usize = 0;
    while rows.len() > 0
        invariant
            taken + rows@.len() == orig.len(),
            total == orig.len(),
            rows@ == orig.subrange(taken as int, orig.len() as int),
            records@.len() == decodable_rows(lookup@, orig.subrange(0, taken as int)).len(),
            forall|k: int|
                0 <= k < records@.len() ==> decodes_to(
                    lookup@,
                    decodable_rows(lookup@, orig.subrange(0, taken as int))[k],
                    #[trigger] records@[k],
                ),
        decreases rows.len(),
    {
        let row = rows.remove(0);
        let ghost next = orig.subrange(0, taken + 1);
        assert(next.drop_last() =~= orig.subrange(0, taken as int));
        assert(next.last() == row);
        taken = taken + 1;
        assert(rows@ =~= orig.subrange(taken as int, orig.len() as int));
        let ghost row_g = row;
        let TransformStateRow { transform_uuid, transform_key, transform_value, event_count } = row;
        match find_entry(lookup, transform_uuid.as_str()) {
            Some(ei) => {
                let entry = &lookup[ei];
                match zip_fields(&entry.def, transform_key.as_str(), transform_value.as_str()) {
                    Some(fields) => {
                        let category = if entry.event_names.len() > 0 {
                            categorize(entry.event_names[0].as_str())
                        } else {
                            Category::Other
                        };
                        let rec = DecodedRecord {
                            event_names: copy_strings(&entry.event_names),
                            transform_name: entry.def.name.clone(),
                            category,
                            config_type: entry.config.config_type.clone(),
                            config_enabled: entry.config.config_enabled,
                            fields,
                            event_count,
                        };
                        let ghost before = records@;
                        records.push(rec);
                        assert forall|k: int| 0 <= k < records@.len() implies decodes_to(
                            lookup@,
                            decodable_rows(lookup@, next)[k],
                            #[trigger] records@[k],
                        ) by {
                            if k < before.len() {
                                assert(records@[k] == before[k]);
                            }
                        }
                    },
                    None => {},
                }
            },
            None => {},
        }
    }
    assert(orig.subrange(0, taken as int) =~= orig);
    records
}

/// Events with their categories and transform counts, from
/// `(event name, transform count)` rows.
pub fn list_events(rows: Vec<(String, u32)>) -> (r: Vec<EventInfo>)
    ensures
        r@.len() == rows@.len(),
        forall|i: int|
            0 <= i < r@.len() ==> (#[trigger] r@[i]).event_name@ == rows@[i].0@ && r@[i].category
                == category_of(rows@[i].0@) && r@[i].transform_count == rows@[i].1,
{
    let ghost orig = rows@;
    let mut rows = rows;
    let total = rows.len();
    let mut out: Vec<EventInfo> = Vec::new();
    let mut taken: usize = 0;
    while rows.len() > 0
        invariant
            taken + rows@.len() == orig.len(),
            total == orig.len(),
            rows@ == orig.subrange(taken as int, orig.len() as int),
            out@.len() == taken,
            forall|i: int|
                0 <= i < taken ==> (#[trigger] out@[i]).event_name@ == orig[i].0@ && out@[i].category
                    == category_of(orig[i].0@) && out@[i].transform_count == orig[i].1,
        decreases rows.len(),
    {
        let (name, count) = rows.remove(0);
        assert(orig[taken as int] == (name, count));
        let category = categorize(name.as_str());
        out.push(EventInfo { event_name: name, category, transform_count: count });
        taken = taken + 1;
        assert(rows@ =~= orig.subrange(taken as int, orig.len() as int));
    }
    out
}

} // verus!
