//! Catalog contract comparison for repeatable native MCP discovery proof:
//! the identifiers a catalog advertises, their fingerprint, and the verdict
//! of a contract against them.

use vstd::prelude::*;
use crate::catalog_profile::{descriptor_profile_for_catalog_profile, descriptor_profile_of};
use crate::json::{json_as_array, json_as_str, json_get, lemma_view_items, view_entries, view_items, view_json, Json, JsonValue};
use crate::ordered::{sorted_insert, strictly_sorted};
use crate::report::{
    catalog_profile_name, CatalogContract, CatalogContractRequirement, CatalogContractVerdict,
    CatalogProfile, ProbeStepStatus,
};
use crate::schema_compat::{descriptor_profile_from_name, descriptor_profile_name, invalid_descriptor_profile_message};
use crate::transport::{transport_from_name, transport_name, TransportType};
use crate::text::{decimal, fmt_usize, hex_digit, hex_digit_exec, opt_view, str_eq};
use crate::schema_compat::ToolDescriptorProfile;
use crate::text::{is_blank, strings_view, trim};
use vstd::utf8::encode_utf8;

verus! {

/// Name of the probe step that carries the catalog contract verdict.
pub const CATALOG_CONTRACT_STEP: &'static str = "catalog.contract";

/// The descriptor profile in effect: the explicit one, else the one the
/// catalog profile implies, else `basic`.
pub open spec fn effective_profile(
    descriptor_profile: Option<ToolDescriptorProfile>,
    catalog_profile: Option<CatalogProfile>,
) -> ToolDescriptorProfile {
    match descriptor_profile {
        Some(p) => p,
        None => match catalog_profile {
            Some(c) => descriptor_profile_of(c),
            None => ToolDescriptorProfile::Basic,
        },
    }
}

/// The descriptor profile in effect.
pub fn effective_descriptor_profile(
    descriptor_profile: Option<ToolDescriptorProfile>,
    catalog_profile: Option<CatalogProfile>,
) -> (r: ToolDescriptorProfile)
    ensures
        r == effective_profile(descriptor_profile, catalog_profile),
{
    match descriptor_profile {
        Some(p) => p,
        None => match catalog_profile {
            Some(c) => descriptor_profile_for_catalog_profile(c),
            None => ToolDescriptorProfile::Basic,
        },
    }
}

/// The first key, from position `i` on, whose member is an array.
pub open spec fn first_array_member(v: Json, keys: Seq<Seq<char>>, i: int) -> Option<Seq<Json>>
    decreases keys.len() - i,
{
    if i < 0 || i >= keys.len() {
        None
    } else {
        match json_get(v, keys[i]) {
            Some(Json::Array(items)) => Some(items),
            _ => first_array_member(v, keys, i + 1),
        }
    }
}

/// The listed items of a catalog payload: the payload itself when it is an
/// array, else the first of `keys` whose member is an array.
pub open spec fn catalog_items(v: Json, keys: Seq<Seq<char>>) -> Option<Seq<Json>> {
    match v {
        Json::Array(items) => Some(items),
        Json::Object(_) => first_array_member(v, keys, 0),
        _ => None,
    }
}

/// The identifier of an item: the trimmed value of the first of `keys`
/// whose member is a non-blank string (items that are not objects have
/// none).
pub open spec fn item_identifier_from(item: Json, keys: Seq<Seq<char>>, i: int) -> Option<Seq<char>>
    decreases keys.len() - i,
{
    if i < 0 || i >= keys.len() || !(item is Object) {
        None
    } else {
        match json_get(item, keys[i]) {
            Some(Json::Str(s)) => if is_blank(s) {
                item_identifier_from(item, keys, i + 1)
            } else {
                Some(trim(s))
            },
            _ => item_identifier_from(item, keys, i + 1),
        }
    }
}

/// `s` is the identifier of some listed item of the payload.
pub open spec fn is_catalog_identifier(
    v: Option<Json>,
    array_keys: Seq<Seq<char>>,
    id_keys: Seq<Seq<char>>,
    s: Seq<char>,
) -> bool {
    match v {
        None => false,
        Some(j) => match catalog_items(j, array_keys) {
            None => false,
            Some(items) => exists|k: int|
                0 <= k < items.len() && item_identifier_from(#[trigger] items[k], id_keys, 0)
                    == Some(s),
        },
    }
}

fn first_array_member_exec<'a>(v: &'a JsonValue, keys: &[&str]) -> (r: Option<&'a Vec<JsonValue>>)
    ensures
        match r {
            Some(items) => first_array_member(v@, keys@.map_values(|k: &str| k@), 0) == Some(
                view_items(items@),
            ),
            None => first_array_member(v@, keys@.map_values(|k: &str| k@), 0) is None,
        },
{
    let ghost ks = keys@.map_values(|k: &str| k@);
    let mut i: usize = 0;
    while i < keys.len()
        invariant
            i <= keys@.len(),
            ks == keys@.map_values(|k: &str| k@),
            first_array_member(v@, ks, 0) == first_array_member(v@, ks, i as int),
        decreases keys@.len() - i,
    {
        assert(ks[i as int] == keys@[i as int]@);
        match v.get(keys[i]) {
            Some(JsonValue::Array(items)) => {
                return Some(items);
            },
            _ => {},
        }
        i = i + 1;
    }
    None
}

fn item_identifier_exec(item: &JsonValue, keys: &[&str]) -> (r: Option<String>)
    ensures
        crate::text::opt_view(r) == item_identifier_from(item@, keys@.map_values(|k: &str| k@), 0),
{
    let ghost ks = keys@.map_values(|k: &str| k@);
    if !item.is_object() {
        return None;
    }
    let mut i: usize = 0;
    while i < keys.len()
        invariant
            i <= keys@.len(),
            ks == keys@.map_values(|k: &str| k@),
            item@ is Object,
            item_identifier_from(item@, ks, 0) == item_identifier_from(item@, ks, i as int),
        decreases keys@.len() - i,
    {
        assert(ks[i as int] == keys@[i as int]@);
        match item.get(keys[i]) {
            Some(JsonValue::String(s)) => {
                if !crate::text::is_blank_str(s.as_str()) {
                    return Some(crate::text::trim_str(s.as_str()));
                }
            },
            _ => {},
        }
        i = i + 1;
    }
    None
}

/// The identifiers a catalog payload advertises, in sorted order without
/// repeats (the one list that is strictly ascending and holds exactly them).
pub open spec fn catalog_ids(
    v: Option<Json>,
    array_keys: Seq<Seq<char>>,
    id_keys: Seq<Seq<char>>,
) -> Seq<Seq<char>> {
    choose|l: Seq<Seq<char>>|
        strictly_sorted(l) && forall|s: Seq<char>|
            l.contains(s) <==> is_catalog_identifier(v, array_keys, id_keys, s)
}

/// The identifiers a catalog payload advertises, sorted and without
/// repeats.
#[verifier::loop_isolation(false)]
fn collect_identifiers(value: Option<&JsonValue>, array_keys: &[&str], identifier_keys: &[&str]) -> (r:
    Vec<String>)
    ensures
        strictly_sorted(strings_view(r@)),
        forall|s: Seq<char>|
            strings_view(r@).contains(s) <==> is_catalog_identifier(
                match value {
                    Some(v) => Some(v@),
                    None => None,
                },
                array_keys@.map_values(|k: &str| k@),
                identifier_keys@.map_values(|k: &str| k@),
                s,
            ),
{
    let ghost aks = array_keys@.map_values(|k: &str| k@);
    let ghost iks = identifier_keys@.map_values(|k: &str| k@);
    let mut ids: Vec<String> = Vec::new();
    let v = match value {
        None => {
            assert(strings_view(ids@) =~= Seq::<Seq<char>>::empty());
            return ids;
        },
        Some(v) => v,
    };
    let items: &Vec<JsonValue> = match v {
        JsonValue::Array(items) => items,
        JsonValue::Object(_) => match first_array_member_exec(v, array_keys) {
            Some(items) => items,
            None => {
                assert(strings_view(ids@) =~= Seq::<Seq<char>>::empty());
                return ids;
            },
        },
        _ => {
            assert(strings_view(ids@) =~= Seq::<Seq<char>>::empty());
            return ids;
        },
    };
    let ghost iv = view_items(items@);
    proof {
        lemma_view_items(items@);
        assert(catalog_items(v@, aks) == Some(iv));
        assert(strings_view(ids@) =~= Seq::<Seq<char>>::empty());
    }
    let mut k: usize = 0;
    while k < items.len()
        invariant
            k <= items@.len(),
            iv.len() == items@.len(),
            forall|j: int| 0 <= j < items@.len() ==> #[trigger] iv[j] == view_json(items@[j]),
            strictly_sorted(strings_view(ids@)),
            forall|s: Seq<char>|
                strings_view(ids@).contains(s) <==> exists|j: int|
                    0 <= j < k && item_identifier_from(#[trigger] iv[j], iks, 0) == Some(s),
        decreases items@.len() - k,
    {
        assert(iv[k as int] == items@[k as int]@);
        let ghost before = strings_view(ids@);
        match item_identifier_exec(&items[k], identifier_keys) {
            Some(id) => {
                sorted_insert(&mut ids, id);
            },
            None => {},
        }
        proof {
            assert forall|s: Seq<char>|
                strings_view(ids@).contains(s) <==> exists|j: int|
                    0 <= j < k + 1 && item_identifier_from(#[trigger] iv[j], iks, 0) == Some(s) by {
                if exists|j: int| 0 <= j < k + 1 && item_identifier_from(#[trigger] iv[j], iks, 0) == Some(s) {
                    let j = choose|j: int| 0 <= j < k + 1 && item_identifier_from(#[trigger] iv[j], iks, 0) == Some(s);
                    if j < k {
                        assert(before.contains(s));
                    }
                }
                if before.contains(s) {
                    let j = choose|j: int| 0 <= j < k && item_identifier_from(#[trigger] iv[j], iks, 0) == Some(s);
                    assert(0 <= j < k + 1);
                }
            }
        }
        k = k + 1;
    }
    ids
}


/// The identifiers a catalog payload advertises, sorted and without
/// repeats.
pub fn extract_identifiers(value: Option<&JsonValue>, array_keys: &[&str], identifier_keys: &[&str]) -> (r:
    Vec<String>)
    ensures
        strings_view(r@) == catalog_ids(
            match value {
                Some(v) => Some(v@),
                None => None,
            },
            array_keys@.map_values(|k: &str| k@),
            identifier_keys@.map_values(|k: &str| k@),
        ),
{
    let r = collect_identifiers(value, array_keys, identifier_keys);
    proof {
        let v = match value {
            Some(v) => Some(v@),
            None => None,
        };
        let aks = array_keys@.map_values(|k: &str| k@);
        let iks = identifier_keys@.map_values(|k: &str| k@);
        let l = catalog_ids(v, aks, iks);
        assert(strictly_sorted(strings_view(r@)) && forall|s: Seq<char>|
            strings_view(r@).contains(s) <==> is_catalog_identifier(v, aks, iks, s));
        crate::ordered::lemma_sorted_unique(l, strings_view(r@));
    }
    r
}


/// The FNV-1a 64-bit offset basis.
pub const FNV_OFFSET: u64 = 0xcbf29ce484222325;

/// The FNV-1a 64-bit prime.
pub const FNV_PRIME: u64 = 0x100000001b3;

/// One FNV-1a step: xor the byte in, then multiply (wrapping) by the prime.
pub open spec fn fnv_step(h: u64, b: u8) -> u64 {
    (h ^ (b as u64)).wrapping_mul(FNV_PRIME)
}

/// FNV-1a over a byte string, from state `h`.
pub open spec fn fnv_bytes(h: u64, bs: Seq<u8>) -> u64
    decreases bs.len(),
{
    if bs.len() == 0 {
        h
    } else {
        fnv_step(fnv_bytes(h, bs.drop_last()), bs.last())
    }
}

/// Fold bytes into an FNV-1a hash.
pub fn fnv1a_update(hash: &mut u64, bytes: &[u8])
    ensures
        *final(hash) == fnv_bytes(*old(hash), bytes@),
{
    let ghost start = *hash;
    let mut i: usize = 0;
    while i < bytes.len()
        invariant
            i <= bytes@.len(),
            *hash == fnv_bytes(start, bytes@.subrange(0, i as int)),
        decreases bytes@.len() - i,
    {
        proof {
            assert(bytes@.subrange(0, i + 1).drop_last() =~= bytes@.subrange(0, i as int));
        }
        *hash = (*hash ^ (bytes[i] as u64)).wrapping_mul(FNV_PRIME);
        i = i + 1;
    }
    assert(bytes@.subrange(0, bytes@.len() as int) =~= bytes@);
}

/// A string's UTF-8 bytes followed by a zero byte, folded in.
pub open spec fn fnv_field(h: u64, s: Seq<char>) -> u64 {
    fnv_bytes(fnv_bytes(h, encode_utf8(s)), seq![0u8])
}

/// Each string folded in as a field, in order.
pub open spec fn fnv_fields(h: u64, vs: Seq<Seq<char>>) -> u64
    decreases vs.len(),
{
    if vs.len() == 0 {
        h
    } else {
        fnv_field(fnv_fields(h, vs.drop_last()), vs.last())
    }
}

/// A section: its name as a field, then its values as fields.
pub open spec fn fnv_section(h: u64, name: Seq<char>, vs: Seq<Seq<char>>) -> u64 {
    fnv_fields(fnv_field(h, name), vs)
}

/// The hash of a catalog's identifiers, section by section.
pub open spec fn catalog_hash(
    tools: Seq<Seq<char>>,
    resources: Seq<Seq<char>>,
    resource_templates: Seq<Seq<char>>,
    prompts: Seq<Seq<char>>,
) -> u64 {
    fnv_section(
        fnv_section(
            fnv_section(fnv_section(FNV_OFFSET, "tools"@, tools), "resources"@, resources),
            "resource_templates"@,
            resource_templates,
        ),
        "prompts"@,
        prompts,
    )
}

/// The `n` low hex digits of `h`, most significant first.
pub open spec fn hex_digits(h: u64, n: nat) -> Seq<char>
    decreases n,
{
    if n == 0 {
        Seq::empty()
    } else {
        hex_digits(h / 16, (n - 1) as nat).push(hex_digit(h % 16))
    }
}

fn hex_digits_exec(h: u64, n: usize) -> (r: Vec<char>)
    ensures
        r@ == hex_digits(h, n as nat),
    decreases n,
{
    if n == 0 {
        Vec::new()
    } else {
        let mut v = hex_digits_exec(h / 16, n - 1);
        v.push(hex_digit_exec(h % 16));
        v
    }
}

/// The fingerprint text: `fnv1a64:` and the hash as sixteen hex digits.
pub open spec fn fingerprint_text(h: u64) -> Seq<char> {
    "fnv1a64:"@ + hex_digits(h, 16)
}

fn fold_field(hash: &mut u64, s: &str)
    ensures
        *final(hash) == fnv_field(*old(hash), s@),
{
    fnv1a_update(hash, s.as_bytes());
    let zero: [u8; 1] = [0u8];
    assert(zero@ =~= seq![0u8]);
    fnv1a_update(hash, &zero);
}

fn fold_section(hash: &mut u64, name: &str, values: &[String])
    ensures
        *final(hash) == fnv_section(*old(hash), name@, strings_view(values@)),
{
    fold_field(hash, name);
    let ghost start = *hash;
    let mut i: usize = 0;
    while i < values.len()
        invariant
            i <= values@.len(),
            *hash == fnv_fields(start, strings_view(values@.subrange(0, i as int))),
        decreases values@.len() - i,
    {
        proof {
            assert(strings_view(values@.subrange(0, i + 1)).drop_last() =~= strings_view(values@.subrange(0, i as int)));
        }
        fold_field(hash, values[i].as_str());
        i = i + 1;
    }
    assert(values@.subrange(0, values@.len() as int) =~= values@);
}

/// The fingerprint of a catalog's identifiers.
pub fn catalog_fingerprint(
    tools: &[String],
    resources: &[String],
    resource_templates: &[String],
    prompts: &[String],
) -> (r: String)
    ensures
        r@ == fingerprint_text(
            catalog_hash(
                strings_view(tools@),
                strings_view(resources@),
                strings_view(resource_templates@),
                strings_view(prompts@),
            ),
        ),
{
    let mut hash: u64 = FNV_OFFSET;
    fold_section(&mut hash, "tools", tools);
    fold_section(&mut hash, "resources", resources);
    fold_section(&mut hash, "resource_templates", resource_templates);
    fold_section(&mut hash, "prompts", prompts);
    let digits = hex_digits_exec(hash, 16);
    let mut out = String::from_str("fnv1a64:");
    out.append(crate::text::string_of(&digits).as_str());
    out
}


/// A contract requirement as plain values.
pub struct ContractReq {
    pub name: Seq<char>,
    pub status: ProbeStepStatus,
    pub detail: Seq<char>,
    pub expected: Option<Json>,
    pub actual: Option<Json>,
}

/// The plain values of a requirement.
pub open spec fn contract_req_view(r: CatalogContractRequirement) -> ContractReq {
    ContractReq {
        name: r.name@,
        status: r.status,
        detail: r.detail@,
        expected: match r.expected {
            Some(v) => Some(v@),
            None => None,
        },
        actual: match r.actual {
            Some(v) => Some(v@),
            None => None,
        },
    }
}

/// The plain values of each requirement.
pub open spec fn contract_reqs_view(s: Seq<CatalogContractRequirement>) -> Seq<ContractReq> {
    s.map_values(|r: CatalogContractRequirement| contract_req_view(r))
}

/// A requirement that passes when `ok`.
pub open spec fn req(
    name: Seq<char>,
    ok: bool,
    detail: Seq<char>,
    expected: Option<Json>,
    actual: Option<Json>,
) -> ContractReq {
    ContractReq {
        name,
        status: if ok {
            ProbeStepStatus::Passed
        } else {
            ProbeStepStatus::Error
        },
        detail,
        expected,
        actual,
    }
}

/// The findings that failed requirements give, in order.
pub open spec fn failing(reqs: Seq<ContractReq>) -> Seq<Seq<char>>
    decreases reqs.len(),
{
    if reqs.len() == 0 {
        Seq::empty()
    } else {
        failing(reqs.drop_last()) + if reqs.last().status == ProbeStepStatus::Error {
            seq![reqs.last().name + ": "@ + reqs.last().detail]
        } else {
            Seq::empty()
        }
    }
}

/// A JSON number written in decimal.
pub open spec fn num(n: nat) -> Json {
    Json::Number(decimal(n))
}

/// The schema version check.
pub open spec fn schema_check(version: u32) -> ContractReq {
    if version != 1 {
        req(
            "schema_version"@,
            false,
            "unsupported catalog contract schema_version "@ + decimal(version as nat),
            Some(num(1)),
            Some(num(version as nat)),
        )
    } else {
        req("schema_version"@, true, "schema_version 1"@, Some(num(1)), Some(num(1)))
    }
}

/// The transport check, when the contract names a transport.
pub open spec fn transport_check(expected: Seq<char>, observed: TransportType) -> ContractReq {
    match transport_from_name(expected) {
        Some(e) => if e == observed {
            req(
                "transport"@,
                true,
                "transport "@ + transport_name(observed) + " matched"@,
                Some(Json::Str(transport_name(e))),
                Some(Json::Str(transport_name(observed))),
            )
        } else {
            req(
                "transport"@,
                false,
                "expected transport "@ + transport_name(e) + ", observed "@ + transport_name(
                    observed,
                ),
                Some(Json::Str(transport_name(e))),
                Some(Json::Str(transport_name(observed))),
            )
        },
        None => req(
            "transport"@,
            false,
            crate::cli::invalid_transport_message(expected),
            Some(Json::Str(expected)),
            Some(Json::Str(transport_name(observed))),
        ),
    }
}

/// The catalog profile check, when the contract names a profile.
pub open spec fn profile_check(expected: CatalogProfile, observed: Option<CatalogProfile>) -> ContractReq {
    let name = catalog_profile_name(expected);
    let actual = match observed {
        Some(p) => Some(catalog_profile_name(p)),
        None => None,
    };
    if actual == Some(name) {
        req(
            "catalog_profile"@,
            true,
            "catalog_profile "@ + name + " matched"@,
            Some(Json::Str(name)),
            Some(Json::Str(name)),
        )
    } else {
        req(
            "catalog_profile"@,
            false,
            "expected catalog_profile "@ + name + ", observed "@ + match actual {
                Some(a) => a,
                None => "none"@,
            },
            Some(Json::Str(name)),
            match actual {
                Some(a) => Some(Json::Str(a)),
                None => None,
            },
        )
    }
}

/// The descriptor profile check, when the contract names one.
pub open spec fn descriptor_check(expected: Seq<char>, observed: ToolDescriptorProfile) -> ContractReq {
    match descriptor_profile_from_name(expected) {
        Some(e) => if e == observed {
            req(
                "descriptor_profile"@,
                true,
                "descriptor_profile "@ + descriptor_profile_name(e) + " matched"@,
                Some(Json::Str(descriptor_profile_name(e))),
                Some(Json::Str(descriptor_profile_name(observed))),
            )
        } else {
            req(
                "descriptor_profile"@,
                false,
                "expected descriptor_profile "@ + descriptor_profile_name(e) + ", observed "@
                    + descriptor_profile_name(observed),
                Some(Json::Str(descriptor_profile_name(e))),
                Some(Json::Str(descriptor_profile_name(observed))),
            )
        },
        None => req(
            "descriptor_profile"@,
            false,
            invalid_descriptor_profile_message(expected),
            Some(Json::Str(expected)),
            Some(Json::Str(descriptor_profile_name(observed))),
        ),
    }
}

/// The fingerprint check, when the contract names a fingerprint.
pub open spec fn fingerprint_check(expected: Seq<char>, actual: Seq<char>) -> ContractReq {
    if expected == actual {
        req(
            "catalog_fingerprint"@,
            true,
            "catalog_fingerprint matched"@,
            Some(Json::Str(expected)),
            Some(Json::Str(actual)),
        )
    } else {
        req(
            "catalog_fingerprint"@,
            false,
            "expected catalog_fingerprint "@ + expected + ", observed "@ + actual,
            Some(Json::Str(expected)),
            Some(Json::Str(actual)),
        )
    }
}

/// The count checks of one section.
pub open spec fn count_checks(
    name: Seq<char>,
    actual: nat,
    expected: Option<usize>,
    min: Option<usize>,
) -> Seq<ContractReq> {
    let e = match expected {
        Some(n) => seq![
            req(
                name + ".expected_count"@,
                actual == n,
                if actual == n {
                    name + " count matched "@ + decimal(n as nat)
                } else {
                    "expected "@ + decimal(n as nat) + " "@ + name + ", observed "@ + decimal(actual)
                },
                Some(num(n as nat)),
                Some(num(actual)),
            ),
        ],
        None => Seq::empty(),
    };
    let m = match min {
        Some(n) => seq![
            req(
                name + ".min_count"@,
                actual >= n,
                if actual >= n {
                    name + " count "@ + decimal(actual) + " met minimum "@ + decimal(n as nat)
                } else {
                    "expected at least "@ + decimal(n as nat) + " "@ + name + ", observed "@
                        + decimal(actual)
                },
                Some(num(n as nat)),
                Some(num(actual)),
            ),
        ],
        None => Seq::empty(),
    };
    e + m
}

/// The expected identifiers missing from the actual ones, in order.
pub open spec fn missing_ids(expected: Seq<Seq<char>>, actual: Seq<Seq<char>>) -> Seq<Seq<char>>
    decreases expected.len(),
{
    if expected.len() == 0 {
        Seq::empty()
    } else {
        missing_ids(expected.drop_last(), actual) + if actual.contains(expected.last()) {
            Seq::empty()
        } else {
            seq![expected.last()]
        }
    }
}

/// A list of strings as a JSON array.
pub open spec fn str_array(items: Seq<Seq<char>>) -> Json {
    Json::Array(items.map_values(|s: Seq<char>| Json::Str(s)))
}

/// The required-identifier check of one section (none when nothing is
/// required).
pub open spec fn ids_check(name: Seq<char>, expected: Seq<Seq<char>>, actual: Seq<Seq<char>>) -> Seq<
    ContractReq,
> {
    if expected.len() == 0 {
        Seq::empty()
    } else {
        let missing = missing_ids(expected, actual);
        seq![
            req(
                name,
                missing.len() == 0,
                if missing.len() == 0 {
                    "all "@ + decimal(expected.len()) + " "@ + name + " matched"@
                } else {
                    "missing "@ + decimal(missing.len()) + " "@ + name + ": "@
                        + crate::text::join_with(missing, ", "@)
                },
                Some(str_array(expected)),
                Some(str_array(actual)),
            ),
        ]
    }
}

fn push_req(
    requirements: &mut Vec<CatalogContractRequirement>,
    name: &str,
    ok: bool,
    detail: String,
    expected: Option<JsonValue>,
    actual: Option<JsonValue>,
)
    ensures
        contract_reqs_view(final(requirements)@) == contract_reqs_view(old(requirements)@).push(
            req(
                name@,
                ok,
                detail@,
                match expected {
                    Some(v) => Some(v@),
                    None => None,
                },
                match actual {
                    Some(v) => Some(v@),
                    None => None,
                },
            ),
        ),
{
    let ghost before = requirements@;
    let r = CatalogContractRequirement {
        name: String::from_str(name),
        status: if ok {
            ProbeStepStatus::Passed
        } else {
            ProbeStepStatus::Error
        },
        detail,
        expected,
        actual,
    };
    requirements.push(r);
    proof {
        assert(contract_reqs_view(requirements@) =~= contract_reqs_view(before).push(contract_req_view(r)));
    }
}

pub(crate) fn num_json(n: usize) -> (r: JsonValue)
    ensures
        r@ == num(n as nat),
{
    JsonValue::Number(fmt_usize(n))
}

pub(crate) fn str_json(s: &str) -> (r: JsonValue)
    ensures
        r@ == Json::Str(s@),
{
    JsonValue::String(String::from_str(s))
}

pub(crate) fn str_array_json(items: &[String]) -> (r: JsonValue)
    ensures
        r@ == str_array(strings_view(items@)),
{
    let mut out: Vec<JsonValue> = Vec::new();
    let mut i: usize = 0;
    while i < items.len()
        invariant
            i <= items@.len(),
            view_items(out@) == strings_view(items@.subrange(0, i as int)).map_values(
                |s: Seq<char>| Json::Str(s),
            ),
        decreases items@.len() - i,
    {
        let ghost before = out@;
        let item = JsonValue::String(items[i].clone());
        assert(item@ == Json::Str(items@[i as int]@));
        out.push(item);
        proof {
            assert(out@.drop_last() =~= before);
            assert(out@.last() == item);
            assert(view_items(out@) == view_items(before).push(Json::Str(items@[i as int]@)));
            assert(strings_view(items@.subrange(0, i + 1)).map_values(|s: Seq<char>| Json::Str(s))
                =~= strings_view(items@.subrange(0, i as int)).map_values(|s: Seq<char>| Json::Str(s)).push(
                Json::Str(items@[i as int]@),
            ));
        }
        i = i + 1;
    }
    assert(items@.subrange(0, items@.len() as int) =~= items@);
    JsonValue::Array(out)
}

fn push_count_requirements(
    requirements: &mut Vec<CatalogContractRequirement>,
    name: &str,
    actual_count: usize,
    expected_count: Option<usize>,
    min_count: Option<usize>,
)
    ensures
        contract_reqs_view(final(requirements)@) == contract_reqs_view(old(requirements)@)
            + count_checks(name@, actual_count as nat, expected_count, min_count),
{
    let ghost before = contract_reqs_view(requirements@);
    match expected_count {
        Some(n) => {
            let ok = actual_count == n;
            let detail = if ok {
                let mut d = String::from_str(name);
                d.append(" count matched ");
                d.append(fmt_usize(n).as_str());
                d
            } else {
                let mut d = String::from_str("expected ");
                d.append(fmt_usize(n).as_str());
                d.append(" ");
                d.append(name);
                d.append(", observed ");
                d.append(fmt_usize(actual_count).as_str());
                d
            };
            let mut rn = String::from_str(name);
            rn.append(".expected_count");
            push_req(requirements, rn.as_str(), ok, detail, Some(num_json(n)), Some(num_json(actual_count)));
        },
        None => {},
    }
    let ghost mid = contract_reqs_view(requirements@);
    match min_count {
        Some(n) => {
            let ok = actual_count >= n;
            let detail = if ok {
                let mut d = String::from_str(name);
                d.append(" count ");
                d.append(fmt_usize(actual_count).as_str());
                d.append(" met minimum ");
                d.append(fmt_usize(n).as_str());
                d
            } else {
                let mut d = String::from_str("expected at least ");
                d.append(fmt_usize(n).as_str());
                d.append(" ");
                d.append(name);
                d.append(", observed ");
                d.append(fmt_usize(actual_count).as_str());
                d
            };
            let mut rn = String::from_str(name);
            rn.append(".min_count");
            push_req(requirements, rn.as_str(), ok, detail, Some(num_json(n)), Some(num_json(actual_count)));
        },
        None => {},
    }
    proof {
        let all = contract_reqs_view(requirements@);
        let e = mid.subrange(before.len() as int, mid.len() as int);
        let m = all.subrange(mid.len() as int, all.len() as int);
        assert(all =~= before + (e + m));
        assert(e + m =~= count_checks(name@, actual_count as nat, expected_count, min_count));
    }
}

fn contains_str(items: &[String], x: &str) -> (r: bool)
    ensures
        r == strings_view(items@).contains(x@),
{
    let mut i: usize = 0;
    while i < items.len()
        invariant
            i <= items@.len(),
            forall|j: int| 0 <= j < i ==> items@[j]@ != x@,
        decreases items@.len() - i,
    {
        if str_eq(items[i].as_str(), x) {
            assert(strings_view(items@)[i as int] == x@);
            return true;
        }
        i = i + 1;
    }
    proof {
        if strings_view(items@).contains(x@) {
            let k = choose|k: int| 0 <= k < strings_view(items@).len() && strings_view(items@)[k] == x@;
            assert(items@[k]@ == x@);
        }
    }
    false
}

fn push_required_identifiers(
    requirements: &mut Vec<CatalogContractRequirement>,
    name: &str,
    expected: &[String],
    actual: &[String],
)
    ensures
        contract_reqs_view(final(requirements)@) == contract_reqs_view(old(requirements)@)
            + ids_check(name@, strings_view(expected@), strings_view(actual@)),
{
    let ghost before = contract_reqs_view(requirements@);
    if expected.len() == 0 {
        assert(before + Seq::<ContractReq>::empty() =~= before);
        return;
    }
    let mut missing: Vec<String> = Vec::new();
    let mut i: usize = 0;
    while i < expected.len()
        invariant
            i <= expected@.len(),
            strings_view(missing@) == missing_ids(
                strings_view(expected@.subrange(0, i as int)),
                strings_view(actual@),
            ),
        decreases expected@.len() - i,
    {
        proof {
            assert(strings_view(expected@.subrange(0, i + 1)).drop_last() =~= strings_view(expected@.subrange(0, i as int)));
        }
        if !contains_str(actual, expected[i].as_str()) {
            let ghost b = missing@;
            missing.push(expected[i].clone());
            proof {
                assert(strings_view(missing@) =~= strings_view(b) + seq![expected@[i as int]@]);
            }
        } else {
            proof {
                assert(strings_view(missing@) =~= strings_view(missing@) + Seq::<Seq<char>>::empty());
            }
        }
        i = i + 1;
    }
    proof {
        assert(expected@.subrange(0, expected@.len() as int) =~= expected@);
    }
    let ok = missing.len() == 0;
    let detail = if ok {
        let mut d = String::from_str("all ");
        d.append(fmt_usize(expected.len()).as_str());
        d.append(" ");
        d.append(name);
        d.append(" matched");
        d
    } else {
        let mut d = String::from_str("missing ");
        d.append(fmt_usize(missing.len()).as_str());
        d.append(" ");
        d.append(name);
        d.append(": ");
        d.append(crate::text::join_strings(&missing, ", ").as_str());
        d
    };
    proof {
        assert(strings_view(missing@).len() == missing@.len());
        assert(strings_view(expected@).len() == expected@.len());
    }
    push_req(
        requirements,
        name,
        ok,
        detail,
        Some(str_array_json(expected)),
        Some(str_array_json(actual)),
    );
    proof {
        assert(contract_reqs_view(requirements@) =~= before + ids_check(name@, strings_view(expected@), strings_view(actual@)));
    }
}


/// An optional document as plain values.
pub open spec fn opt_json_view(o: Option<JsonValue>) -> Option<Json> {
    match o {
        Some(v) => Some(v@),
        None => None,
    }
}

/// Two contracts hold the same values.
pub open spec fn contract_same(a: CatalogContract, b: CatalogContract) -> bool {
    &&& a.schema_version == b.schema_version
    &&& a.catalog_profile == b.catalog_profile
    &&& a.expected_tool_count == b.expected_tool_count
    &&& a.min_tool_count == b.min_tool_count
    &&& a.expected_resource_count == b.expected_resource_count
    &&& a.min_resource_count == b.min_resource_count
    &&& a.expected_resource_template_count == b.expected_resource_template_count
    &&& a.min_resource_template_count == b.min_resource_template_count
    &&& a.expected_prompt_count == b.expected_prompt_count
    &&& a.min_prompt_count == b.min_prompt_count
    &&& opt_view(a.transport) == opt_view(b.transport)
    &&& opt_view(a.descriptor_profile) == opt_view(b.descriptor_profile)
    &&& opt_view(a.catalog_fingerprint) == opt_view(b.catalog_fingerprint)
    &&& opt_view(a.build) == opt_view(b.build)
    &&& opt_view(a.server_mode) == opt_view(b.server_mode)
    &&& strings_view(a.required_tools@) == strings_view(b.required_tools@)
    &&& strings_view(a.required_resources@) == strings_view(b.required_resources@)
    &&& strings_view(a.required_resource_templates@) == strings_view(b.required_resource_templates@)
    &&& strings_view(a.required_prompts@) == strings_view(b.required_prompts@)
    &&& opt_json_view(a.schema_budget) == opt_json_view(b.schema_budget)
    &&& opt_json_view(a.metadata) == opt_json_view(b.metadata)
}

/// Every contract holds the same values as itself.
pub proof fn lemma_contract_same_refl(c: Option<CatalogContract>)
    ensures
        c matches Some(x) ==> contract_same(x, x),
{
}

fn clone_opt_json(o: &Option<JsonValue>) -> (r: Option<JsonValue>)
    ensures
        opt_json_view(r) == opt_json_view(*o),
{
    match o {
        Some(v) => Some(v.deep_clone()),
        None => None,
    }
}

/// A copy of a contract.
pub fn clone_contract(c: &CatalogContract) -> (r: CatalogContract)
    ensures
        contract_same(r, *c),
{
    CatalogContract {
        schema_version: c.schema_version,
        catalog_profile: c.catalog_profile,
        expected_tool_count: c.expected_tool_count,
        min_tool_count: c.min_tool_count,
        expected_resource_count: c.expected_resource_count,
        min_resource_count: c.min_resource_count,
        expected_resource_template_count: c.expected_resource_template_count,
        min_resource_template_count: c.min_resource_template_count,
        expected_prompt_count: c.expected_prompt_count,
        min_prompt_count: c.min_prompt_count,
        transport: crate::text::clone_opt_string(&c.transport),
        descriptor_profile: crate::text::clone_opt_string(&c.descriptor_profile),
        catalog_fingerprint: crate::text::clone_opt_string(&c.catalog_fingerprint),
        build: crate::text::clone_opt_string(&c.build),
        server_mode: crate::text::clone_opt_string(&c.server_mode),
        required_tools: crate::text::clone_strings(&c.required_tools),
        required_resources: crate::text::clone_strings(&c.required_resources),
        required_resource_templates: crate::text::clone_strings(&c.required_resource_templates),
        required_prompts: crate::text::clone_strings(&c.required_prompts),
        schema_budget: clone_opt_json(&c.schema_budget),
        metadata: clone_opt_json(&c.metadata),
    }
}

/// What live discovery observed, for comparison with a contract.
pub struct CatalogContractSnapshot<'a> {
    pub transport: TransportType,
    pub catalog_profile: Option<CatalogProfile>,
    pub descriptor_profile: ToolDescriptorProfile,
    pub tools: Option<&'a JsonValue>,
    pub resources: Option<&'a JsonValue>,
    pub resource_templates: Option<&'a JsonValue>,
    pub prompts: Option<&'a JsonValue>,
}

/// An optional borrowed document as plain values.
pub open spec fn opt_ref_view(o: Option<&JsonValue>) -> Option<Json> {
    match o {
        Some(v) => Some(v@),
        None => None,
    }
}

/// The advertised tool names.
pub open spec fn snapshot_tools(s: CatalogContractSnapshot) -> Seq<Seq<char>> {
    catalog_ids(opt_ref_view(s.tools), seq!["tools"@], seq!["name"@])
}

/// The advertised resource URIs.
pub open spec fn snapshot_resources(s: CatalogContractSnapshot) -> Seq<Seq<char>> {
    catalog_ids(opt_ref_view(s.resources), seq!["resources"@], seq!["uri"@])
}

/// The advertised resource template URIs.
pub open spec fn snapshot_templates(s: CatalogContractSnapshot) -> Seq<Seq<char>> {
    catalog_ids(
        opt_ref_view(s.resource_templates),
        seq!["resourceTemplates"@, "resource_templates"@],
        seq!["uriTemplate"@, "uri_template"@],
    )
}

/// The advertised prompt names.
pub open spec fn snapshot_prompts(s: CatalogContractSnapshot) -> Seq<Seq<char>> {
    catalog_ids(opt_ref_view(s.prompts), seq!["prompts"@], seq!["name"@])
}

/// The fingerprint of what was observed.
pub open spec fn snapshot_fingerprint(s: CatalogContractSnapshot) -> Seq<char> {
    fingerprint_text(
        catalog_hash(
            snapshot_tools(s),
            snapshot_resources(s),
            snapshot_templates(s),
            snapshot_prompts(s),
        ),
    )
}

/// A requirement present only when `o` is.
pub open spec fn opt_req<T>(o: Option<T>, f: spec_fn(T) -> ContractReq) -> Seq<ContractReq> {
    match o {
        Some(x) => seq![f(x)],
        None => Seq::empty(),
    }
}

/// The requirements a contract places on what was observed, in order.
pub open spec fn contract_requirements(c: CatalogContract, s: CatalogContractSnapshot) -> Seq<ContractReq> {
    let t = snapshot_tools(s);
    let r = snapshot_resources(s);
    let rt = snapshot_templates(s);
    let p = snapshot_prompts(s);
    seq![schema_check(c.schema_version)] + opt_req(
        opt_view(c.transport),
        |e: Seq<char>| transport_check(e, s.transport),
    ) + opt_req(c.catalog_profile, |e: CatalogProfile| profile_check(e, s.catalog_profile))
        + opt_req(
        opt_view(c.descriptor_profile),
        |e: Seq<char>| descriptor_check(e, s.descriptor_profile),
    ) + opt_req(
        opt_view(c.catalog_fingerprint),
        |e: Seq<char>| fingerprint_check(e, snapshot_fingerprint(s)),
    ) + count_checks("tools"@, t.len(), c.expected_tool_count, c.min_tool_count) + count_checks(
        "resources"@,
        r.len(),
        c.expected_resource_count,
        c.min_resource_count,
    ) + count_checks(
        "resource_templates"@,
        rt.len(),
        c.expected_resource_template_count,
        c.min_resource_template_count,
    ) + count_checks("prompts"@, p.len(), c.expected_prompt_count, c.min_prompt_count)
        + ids_check("required_tools"@, strings_view(c.required_tools@), t) + ids_check(
        "required_resources"@,
        strings_view(c.required_resources@),
        r,
    ) + ids_check("required_resource_templates"@, strings_view(c.required_resource_templates@), rt)
        + ids_check("required_prompts"@, strings_view(c.required_prompts@), p)
}


fn push_transport_check(
    requirements: &mut Vec<CatalogContractRequirement>,
    expected: &Option<String>,
    observed: TransportType,
)
    ensures
        contract_reqs_view(final(requirements)@) == contract_reqs_view(old(requirements)@) + opt_req(
            opt_view(*expected),
            |e: Seq<char>| transport_check(e, observed),
        ),
{
    let ghost before = contract_reqs_view(requirements@);
    match expected {
        None => {
            assert(before + Seq::<ContractReq>::empty() =~= before);
        },
        Some(e) => {
            let obs = observed.as_str();
            match TransportType::parse(e.as_str()) {
                Some(t) => {
                    if t == observed {
                        let mut d = String::from_str("transport ");
                        d.append(obs);
                        d.append(" matched");
                        push_req(requirements, "transport", true, d, Some(str_json(t.as_str())), Some(str_json(obs)));
                    } else {
                        let mut d = String::from_str("expected transport ");
                        d.append(t.as_str());
                        d.append(", observed ");
                        d.append(obs);
                        push_req(requirements, "transport", false, d, Some(str_json(t.as_str())), Some(str_json(obs)));
                    }
                },
                None => {
                    let mut d = String::from_str("Invalid transport `");
                    d.append(e.as_str());
                    d.append("`. Expected one of: stdio, sse, streamable-http.");
                    push_req(requirements, "transport", false, d, Some(str_json(e.as_str())), Some(str_json(obs)));
                },
            }
            assert(contract_reqs_view(requirements@) =~= before + seq![transport_check(e@, observed)]);
        },
    }
}

fn push_profile_check(
    requirements: &mut Vec<CatalogContractRequirement>,
    expected: Option<CatalogProfile>,
    observed: Option<CatalogProfile>,
)
    ensures
        contract_reqs_view(final(requirements)@) == contract_reqs_view(old(requirements)@) + opt_req(
            expected,
            |e: CatalogProfile| profile_check(e, observed),
        ),
{
    let ghost before = contract_reqs_view(requirements@);
    match expected {
        None => {
            assert(before + Seq::<ContractReq>::empty() =~= before);
        },
        Some(e) => {
            let name = e.as_str();
            let actual: Option<&str> = match observed {
                Some(p) => Some(p.as_str()),
                None => None,
            };
            let same = match actual {
                Some(a) => str_eq(a, name),
                None => false,
            };
            if same {
                let mut d = String::from_str("catalog_profile ");
                d.append(name);
                d.append(" matched");
                push_req(requirements, "catalog_profile", true, d, Some(str_json(name)), Some(str_json(name)));
            } else {
                let mut d = String::from_str("expected catalog_profile ");
                d.append(name);
                d.append(", observed ");
                match actual {
                    Some(a) => d.append(a),
                    None => d.append("none"),
                }
                let act = match actual {
                    Some(a) => Some(str_json(a)),
                    None => None,
                };
                push_req(requirements, "catalog_profile", false, d, Some(str_json(name)), act);
            }
            assert(contract_reqs_view(requirements@) =~= before + seq![profile_check(e, observed)]);
        },
    }
}

fn push_descriptor_check(
    requirements: &mut Vec<CatalogContractRequirement>,
    expected: &Option<String>,
    observed: ToolDescriptorProfile,
)
    ensures
        contract_reqs_view(final(requirements)@) == contract_reqs_view(old(requirements)@) + opt_req(
            opt_view(*expected),
            |e: Seq<char>| descriptor_check(e, observed),
        ),
{
    let ghost before = contract_reqs_view(requirements@);
    match expected {
        None => {
            assert(before + Seq::<ContractReq>::empty() =~= before);
        },
        Some(e) => {
            let obs = observed.as_str();
            match ToolDescriptorProfile::parse(e.as_str()) {
                Ok(t) => {
                    if t == observed {
                        let mut d = String::from_str("descriptor_profile ");
                        d.append(t.as_str());
                        d.append(" matched");
                        push_req(requirements, "descriptor_profile", true, d, Some(str_json(t.as_str())), Some(str_json(obs)));
                    } else {
                        let mut d = String::from_str("expected descriptor_profile ");
                        d.append(t.as_str());
                        d.append(", observed ");
                        d.append(obs);
                        push_req(requirements, "descriptor_profile", false, d, Some(str_json(t.as_str())), Some(str_json(obs)));
                    }
                },
                Err(msg) => {
                    push_req(requirements, "descriptor_profile", false, msg, Some(str_json(e.as_str())), Some(str_json(obs)));
                },
            }
            assert(contract_reqs_view(requirements@) =~= before + seq![descriptor_check(e@, observed)]);
        },
    }
}

fn push_fingerprint_check(
    requirements: &mut Vec<CatalogContractRequirement>,
    expected: &Option<String>,
    actual: &String,
)
    ensures
        contract_reqs_view(final(requirements)@) == contract_reqs_view(old(requirements)@) + opt_req(
            opt_view(*expected),
            |e: Seq<char>| fingerprint_check(e, actual@),
        ),
{
    let ghost before = contract_reqs_view(requirements@);
    match expected {
        None => {
            assert(before + Seq::<ContractReq>::empty() =~= before);
        },
        Some(e) => {
            if str_eq(e.as_str(), actual.as_str()) {
                push_req(
                    requirements,
                    "catalog_fingerprint",
                    true,
                    String::from_str("catalog_fingerprint matched"),
                    Some(str_json(e.as_str())),
                    Some(str_json(actual.as_str())),
                );
            } else {
                let mut d = String::from_str("expected catalog_fingerprint ");
                d.append(e.as_str());
                d.append(", observed ");
                d.append(actual.as_str());
                push_req(requirements, "catalog_fingerprint", false, d, Some(str_json(e.as_str())), Some(str_json(actual.as_str())));
            }
            assert(contract_reqs_view(requirements@) =~= before + seq![fingerprint_check(e@, actual@)]);
        },
    }
}

/// The findings of a list of requirements.
fn findings_of(requirements: &Vec<CatalogContractRequirement>) -> (r: Vec<String>)
    ensures
        strings_view(r@) == failing(contract_reqs_view(requirements@)),
{
    let ghost rv = contract_reqs_view(requirements@);
    let mut out: Vec<String> = Vec::new();
    let mut i: usize = 0;
    while i < requirements.len()
        invariant
            i <= requirements@.len(),
            rv == contract_reqs_view(requirements@),
            strings_view(out@) == failing(rv.subrange(0, i as int)),
        decreases requirements@.len() - i,
    {
        proof {
            assert(rv.subrange(0, i + 1).drop_last() =~= rv.subrange(0, i as int));
            assert(rv[i as int] == contract_req_view(requirements@[i as int]));
        }
        let r = &requirements[i];
        if r.status == ProbeStepStatus::Error {
            let mut f = r.name.clone();
            f.append(": ");
            f.append(r.detail.as_str());
            let ghost b = out@;
            out.push(f);
            proof {
                assert(strings_view(out@) =~= strings_view(b) + seq![rv[i as int].name + ": "@ + rv[i as int].detail]);
            }
        } else {
            proof {
                assert(strings_view(out@) =~= strings_view(out@) + Seq::<Seq<char>>::empty());
            }
        }
        i = i + 1;
    }
    assert(rv.subrange(0, i as int) =~= rv);
    out
}

/// The verdict's detail line.
pub open spec fn contract_detail(findings: nat) -> Seq<char> {
    if findings == 0 {
        "catalog contract passed"@
    } else {
        "catalog contract failed with "@ + decimal(findings) + " finding(s)"@
    }
}

/// Compare live discovery with a catalog contract.
#[verifier::rlimit(40)]
pub fn evaluate_catalog_contract(contract: &CatalogContract, snapshot: CatalogContractSnapshot) -> (r:
    CatalogContractVerdict)
    ensures
        r.schema_version == 1,
        r.actual_fingerprint@ == snapshot_fingerprint(snapshot),
        contract_reqs_view(r.requirements@) == contract_requirements(*contract, snapshot),
        strings_view(r.findings@) == failing(contract_requirements(*contract, snapshot)),
        r.status == (if r.findings@.len() == 0 {
            ProbeStepStatus::Passed
        } else {
            ProbeStepStatus::Error
        }),
        r.detail@ == contract_detail(r.findings@.len()),
        contract_same(r.contract, *contract),
{
    let tools = extract_identifiers(snapshot.tools, &["tools"], &["name"]);
    let resources = extract_identifiers(snapshot.resources, &["resources"], &["uri"]);
    let templates = extract_identifiers(
        snapshot.resource_templates,
        &["resourceTemplates", "resource_templates"],
        &["uriTemplate", "uri_template"],
    );
    let prompts = extract_identifiers(snapshot.prompts, &["prompts"], &["name"]);
    proof {
        assert(["tools"]@.map_values(|k: &str| k@) =~= seq!["tools"@]);
        assert(["name"]@.map_values(|k: &str| k@) =~= seq!["name"@]);
        assert(["resources"]@.map_values(|k: &str| k@) =~= seq!["resources"@]);
        assert(["uri"]@.map_values(|k: &str| k@) =~= seq!["uri"@]);
        assert(["resourceTemplates", "resource_templates"]@.map_values(|k: &str| k@) =~= seq!["resourceTemplates"@, "resource_templates"@]);
        assert(["uriTemplate", "uri_template"]@.map_values(|k: &str| k@) =~= seq!["uriTemplate"@, "uri_template"@]);
        assert(["prompts"]@.map_values(|k: &str| k@) =~= seq!["prompts"@]);
    }
    let fingerprint = catalog_fingerprint(&tools, &resources, &templates, &prompts);
    let mut requirements: Vec<CatalogContractRequirement> = Vec::new();
    if contract.schema_version != 1 {
        let mut d = String::from_str("unsupported catalog contract schema_version ");
        d.append(crate::text::fmt_u64(contract.schema_version as u64).as_str());
        push_req(
            &mut requirements,
            "schema_version",
            false,
            d,
            Some(num_json(1)),
            Some(JsonValue::Number(crate::text::fmt_u64(contract.schema_version as u64))),
        );
    } else {
        push_req(
            &mut requirements,
            "schema_version",
            true,
            String::from_str("schema_version 1"),
            Some(num_json(1)),
            Some(num_json(1)),
        );
    }
    proof {
        assert(contract_reqs_view(requirements@) =~= seq![schema_check(contract.schema_version)]);
    }
    push_transport_check(&mut requirements, &contract.transport, snapshot.transport);
    push_profile_check(&mut requirements, contract.catalog_profile, snapshot.catalog_profile);
    push_descriptor_check(&mut requirements, &contract.descriptor_profile, snapshot.descriptor_profile);
    push_fingerprint_check(&mut requirements, &contract.catalog_fingerprint, &fingerprint);
    push_count_requirements(&mut requirements, "tools", tools.len(), contract.expected_tool_count, contract.min_tool_count);
    push_count_requirements(&mut requirements, "resources", resources.len(), contract.expected_resource_count, contract.min_resource_count);
    push_count_requirements(
        &mut requirements,
        "resource_templates",
        templates.len(),
        contract.expected_resource_template_count,
        contract.min_resource_template_count,
    );
    push_count_requirements(&mut requirements, "prompts", prompts.len(), contract.expected_prompt_count, contract.min_prompt_count);
    push_required_identifiers(&mut requirements, "required_tools", &contract.required_tools, &tools);
    push_required_identifiers(&mut requirements, "required_resources", &contract.required_resources, &resources);
    push_required_identifiers(&mut requirements, "required_resource_templates", &contract.required_resource_templates, &templates);
    push_required_identifiers(&mut requirements, "required_prompts", &contract.required_prompts, &prompts);
    proof {
        assert(strings_view(tools@).len() == tools@.len());
        assert(strings_view(resources@).len() == resources@.len());
        assert(strings_view(templates@).len() == templates@.len());
        assert(strings_view(prompts@).len() == prompts@.len());
    }
    let findings = findings_of(&requirements);
    let status = if findings.len() == 0 {
        ProbeStepStatus::Passed
    } else {
        ProbeStepStatus::Error
    };
    let detail = if findings.len() == 0 {
        String::from_str("catalog contract passed")
    } else {
        let mut d = String::from_str("catalog contract failed with ");
        d.append(fmt_usize(findings.len()).as_str());
        d.append(" finding(s)");
        d
    };
    CatalogContractVerdict {
        schema_version: 1,
        status,
        detail,
        actual_fingerprint: fingerprint,
        requirements,
        findings,
        contract: clone_contract(contract),
    }
}


/// An object member that is present only when its value is.
pub open spec fn opt_entry(key: Seq<char>, v: Option<Json>) -> Seq<(Seq<char>, Json)> {
    match v {
        Some(j) => seq![(key, j)],
        None => Seq::empty(),
    }
}

/// An optional text as an optional JSON string.
pub open spec fn opt_str_json(o: Option<String>) -> Option<Json> {
    match o {
        Some(s) => Some(Json::Str(s@)),
        None => None,
    }
}

/// An optional count as an optional JSON number.
pub open spec fn opt_num_json(o: Option<usize>) -> Option<Json> {
    match o {
        Some(n) => Some(num(n as nat)),
        None => None,
    }
}

/// A list of identifiers as a JSON array, absent when empty.
pub open spec fn opt_list_json(v: Seq<String>) -> Option<Json> {
    if v.len() == 0 {
        None
    } else {
        Some(str_array(strings_view(v)))
    }
}

/// The wire name of a step status.
pub open spec fn status_name(s: ProbeStepStatus) -> Seq<char> {
    match s {
        ProbeStepStatus::Passed => "ok"@,
        ProbeStepStatus::Error => "error"@,
    }
}

/// A contract as a JSON object: keys in sorted order, absent options and
/// empty lists left out.
pub open spec fn contract_json(c: CatalogContract) -> Json {
    Json::Object(
        opt_entry("build"@, opt_str_json(c.build)) + opt_entry(
            "catalog_fingerprint"@,
            opt_str_json(c.catalog_fingerprint),
        ) + opt_entry(
            "catalog_profile"@,
            match c.catalog_profile {
                Some(p) => Some(Json::Str(catalog_profile_name(p))),
                None => None,
            },
        ) + opt_entry("descriptor_profile"@, opt_str_json(c.descriptor_profile)) + opt_entry(
            "expected_prompt_count"@,
            opt_num_json(c.expected_prompt_count),
        ) + opt_entry("expected_resource_count"@, opt_num_json(c.expected_resource_count))
            + opt_entry(
            "expected_resource_template_count"@,
            opt_num_json(c.expected_resource_template_count),
        ) + opt_entry("expected_tool_count"@, opt_num_json(c.expected_tool_count)) + opt_entry(
            "metadata"@,
            opt_json_view(c.metadata),
        ) + opt_entry("min_prompt_count"@, opt_num_json(c.min_prompt_count)) + opt_entry(
            "min_resource_count"@,
            opt_num_json(c.min_resource_count),
        ) + opt_entry("min_resource_template_count"@, opt_num_json(c.min_resource_template_count))
            + opt_entry("min_tool_count"@, opt_num_json(c.min_tool_count)) + opt_entry(
            "required_prompts"@,
            opt_list_json(c.required_prompts@),
        ) + opt_entry("required_resource_templates"@, opt_list_json(c.required_resource_templates@))
            + opt_entry("required_resources"@, opt_list_json(c.required_resources@)) + opt_entry(
            "required_tools"@,
            opt_list_json(c.required_tools@),
        ) + opt_entry("schema_budget"@, opt_json_view(c.schema_budget)) + seq![
            ("schema_version"@, num(c.schema_version as nat)),
        ] + opt_entry("server_mode"@, opt_str_json(c.server_mode)) + opt_entry(
            "transport"@,
            opt_str_json(c.transport),
        ),
    )
}

/// A requirement as a JSON object with sorted keys.
pub open spec fn req_json(r: ContractReq) -> Json {
    Json::Object(
        opt_entry("actual"@, r.actual) + seq![("detail"@, Json::Str(r.detail))] + opt_entry(
            "expected"@,
            r.expected,
        ) + seq![("name"@, Json::Str(r.name)), ("status"@, Json::Str(status_name(r.status)))],
    )
}

/// A verdict as a JSON object with sorted keys.
pub open spec fn verdict_json(v: CatalogContractVerdict) -> Json {
    Json::Object(
        seq![
            ("actual_fingerprint"@, Json::Str(v.actual_fingerprint@)),
            ("contract"@, contract_json(v.contract)),
            ("detail"@, Json::Str(v.detail@)),
            ("findings"@, str_array(strings_view(v.findings@))),
            (
                "requirements"@,
                Json::Array(contract_reqs_view(v.requirements@).map_values(|r: ContractReq| req_json(r))),
            ),
            ("schema_version"@, num(v.schema_version as nat)),
            ("status"@, Json::Str(status_name(v.status))),
        ],
    )
}

pub(crate) fn push_entry(entries: &mut Vec<(String, JsonValue)>, key: &str, v: Option<JsonValue>)
    ensures
        view_entries(final(entries)@) == view_entries(old(entries)@) + opt_entry(key@, opt_json_view(v)),
{
    let ghost before = entries@;
    match v {
        Some(j) => {
            entries.push((String::from_str(key), j));
            proof {
                assert(entries@.drop_last() =~= before);
                assert(view_entries(entries@) =~= view_entries(before) + opt_entry(key@, opt_json_view(v)));
            }
        },
        None => {
            assert(view_entries(entries@) =~= view_entries(before) + opt_entry(key@, opt_json_view(v)));
        },
    }
}

pub(crate) fn opt_str_value(o: &Option<String>) -> (r: Option<JsonValue>)
    ensures
        opt_json_view(r) == opt_str_json(*o),
{
    match o {
        Some(s) => Some(JsonValue::String(s.clone())),
        None => None,
    }
}

pub(crate) fn opt_num_value(o: Option<usize>) -> (r: Option<JsonValue>)
    ensures
        opt_json_view(r) == opt_num_json(o),
{
    match o {
        Some(n) => Some(num_json(n)),
        None => None,
    }
}

fn opt_list_value(v: &Vec<String>) -> (r: Option<JsonValue>)
    ensures
        opt_json_view(r) == opt_list_json(v@),
{
    if v.len() == 0 {
        None
    } else {
        Some(str_array_json(v.as_slice()))
    }
}

pub(crate) fn status_value(s: &ProbeStepStatus) -> (r: JsonValue)
    ensures
        r@ == Json::Str(status_name(*s)),
{
    match s {
        ProbeStepStatus::Passed => str_json("ok"),
        ProbeStepStatus::Error => str_json("error"),
    }
}

fn contract_value(c: &CatalogContract) -> (r: JsonValue)
    ensures
        r@ == contract_json(*c),
{
    let mut e: Vec<(String, JsonValue)> = Vec::new();
    push_entry(&mut e, "build", opt_str_value(&c.build));
    push_entry(&mut e, "catalog_fingerprint", opt_str_value(&c.catalog_fingerprint));
    let profile = match c.catalog_profile {
        Some(p) => Some(str_json(p.as_str())),
        None => None,
    };
    push_entry(&mut e, "catalog_profile", profile);
    push_entry(&mut e, "descriptor_profile", opt_str_value(&c.descriptor_profile));
    push_entry(&mut e, "expected_prompt_count", opt_num_value(c.expected_prompt_count));
    push_entry(&mut e, "expected_resource_count", opt_num_value(c.expected_resource_count));
    push_entry(&mut e, "expected_resource_template_count", opt_num_value(c.expected_resource_template_count));
    push_entry(&mut e, "expected_tool_count", opt_num_value(c.expected_tool_count));
    push_entry(&mut e, "metadata", clone_opt_json(&c.metadata));
    push_entry(&mut e, "min_prompt_count", opt_num_value(c.min_prompt_count));
    push_entry(&mut e, "min_resource_count", opt_num_value(c.min_resource_count));
    push_entry(&mut e, "min_resource_template_count", opt_num_value(c.min_resource_template_count));
    push_entry(&mut e, "min_tool_count", opt_num_value(c.min_tool_count));
    push_entry(&mut e, "required_prompts", opt_list_value(&c.required_prompts));
    push_entry(&mut e, "required_resource_templates", opt_list_value(&c.required_resource_templates));
    push_entry(&mut e, "required_resources", opt_list_value(&c.required_resources));
    push_entry(&mut e, "required_tools", opt_list_value(&c.required_tools));
    push_entry(&mut e, "schema_budget", clone_opt_json(&c.schema_budget));
    push_entry(&mut e, "schema_version", Some(num_json(c.schema_version as usize)));
    push_entry(&mut e, "server_mode", opt_str_value(&c.server_mode));
    push_entry(&mut e, "transport", opt_str_value(&c.transport));
    proof {
        assert(view_entries(e@) =~= match contract_json(*c) {
            Json::Object(es) => es,
            _ => Seq::empty(),
        });
    }
    JsonValue::Object(e)
}

fn requirement_value(r: &CatalogContractRequirement) -> (j: JsonValue)
    ensures
        j@ == req_json(contract_req_view(*r)),
{
    let mut e: Vec<(String, JsonValue)> = Vec::new();
    push_entry(&mut e, "actual", clone_opt_json(&r.actual));
    push_entry(&mut e, "detail", Some(JsonValue::String(r.detail.clone())));
    push_entry(&mut e, "expected", clone_opt_json(&r.expected));
    push_entry(&mut e, "name", Some(JsonValue::String(r.name.clone())));
    push_entry(&mut e, "status", Some(status_value(&r.status)));
    proof {
        assert(view_entries(e@) =~= match req_json(contract_req_view(*r)) {
            Json::Object(es) => es,
            _ => Seq::empty(),
        });
    }
    JsonValue::Object(e)
}

/// The verdict as a JSON document.
pub fn verdict_value(v: &CatalogContractVerdict) -> (j: JsonValue)
    ensures
        j@ == verdict_json(*v),
{
    let mut items: Vec<JsonValue> = Vec::new();
    let ghost reqs = contract_reqs_view(v.requirements@);
    let mut i: usize = 0;
    while i < v.requirements.len()
        invariant
            i <= v.requirements@.len(),
            reqs == contract_reqs_view(v.requirements@),
            view_items(items@) == reqs.subrange(0, i as int).map_values(|r: ContractReq| req_json(r)),
        decreases v.requirements@.len() - i,
    {
        let j = requirement_value(&v.requirements[i]);
        let ghost before = items@;
        items.push(j);
        proof {
            assert(items@.drop_last() =~= before);
            assert(view_items(items@) =~= reqs.subrange(0, i + 1).map_values(|r: ContractReq| req_json(r)));
        }
        i = i + 1;
    }
    proof {
        assert(reqs.subrange(0, i as int) =~= reqs);
    }
    let mut e: Vec<(String, JsonValue)> = Vec::new();
    push_entry(&mut e, "actual_fingerprint", Some(JsonValue::String(v.actual_fingerprint.clone())));
    push_entry(&mut e, "contract", Some(contract_value(&v.contract)));
    push_entry(&mut e, "detail", Some(JsonValue::String(v.detail.clone())));
    push_entry(&mut e, "findings", Some(str_array_json(v.findings.as_slice())));
    push_entry(&mut e, "requirements", Some(JsonValue::Array(items)));
    push_entry(&mut e, "schema_version", Some(num_json(v.schema_version as usize)));
    push_entry(&mut e, "status", Some(status_value(&v.status)));
    proof {
        assert(view_entries(e@) =~= match verdict_json(*v) {
            Json::Object(es) => es,
            _ => Seq::empty(),
        });
    }
    JsonValue::Object(e)
}

/// The probe step that carries a catalog contract verdict.
pub fn build_catalog_contract_step(verdict: &CatalogContractVerdict) -> (r: crate::report::ProbeStep)
    ensures
        r.name@ == CATALOG_CONTRACT_STEP@,
        r.status == verdict.status,
        opt_view(r.detail) == Some(verdict.detail@),
        r.data matches Some(d) && d@ == verdict_json(*verdict),
{
    let status = match verdict.status {
        ProbeStepStatus::Passed => ProbeStepStatus::Passed,
        ProbeStepStatus::Error => ProbeStepStatus::Error,
    };
    crate::report::ProbeStep {
        name: String::from_str(CATALOG_CONTRACT_STEP),
        status,
        detail: Some(verdict.detail.clone()),
        data: Some(verdict_value(verdict)),
    }
}

/// The identifiers of a list of catalog items, in item order, repeats kept.
pub open spec fn item_ids(items: Seq<Json>, id_keys: Seq<Seq<char>>) -> Seq<Seq<char>>
    decreases items.len(),
{
    if items.len() == 0 {
        Seq::empty()
    } else {
        let rest = item_ids(items.drop_last(), id_keys);
        match item_identifier_from(items.last(), id_keys, 0) {
            Some(x) => rest.push(x),
            None => rest,
        }
    }
}

proof fn lemma_item_ids(items: Seq<Json>, id_keys: Seq<Seq<char>>, s: Seq<char>)
    ensures
        item_ids(items, id_keys).contains(s) <==> exists|k: int|
            0 <= k < items.len() && item_identifier_from(#[trigger] items[k], id_keys, 0) == Some(s),
    decreases items.len(),
{
    if items.len() > 0 {
        let t = items.drop_last();
        lemma_item_ids(t, id_keys, s);
        let rest = item_ids(t, id_keys);
        if item_ids(items, id_keys).contains(s) {
            let j = choose|j: int| 0 <= j < item_ids(items, id_keys).len() && item_ids(items, id_keys)[j] == s;
            if j < rest.len() {
                assert(rest.contains(s));
                let k = choose|k: int| 0 <= k < t.len() && item_identifier_from(#[trigger] t[k], id_keys, 0) == Some(s);
                assert(items[k] == t[k]);
            } else {
                assert(item_identifier_from(items[items.len() - 1], id_keys, 0) == Some(s));
            }
        }
        if exists|k: int| 0 <= k < items.len() && item_identifier_from(#[trigger] items[k], id_keys, 0) == Some(s) {
            let k = choose|k: int| 0 <= k < items.len() && item_identifier_from(#[trigger] items[k], id_keys, 0) == Some(s);
            if k < items.len() - 1 {
                assert(t[k] == items[k]);
                assert(rest.contains(s));
                let j = choose|j: int| 0 <= j < rest.len() && rest[j] == s;
                match item_identifier_from(items.last(), id_keys, 0) {
                    Some(x) => assert(rest.push(x)[j] == s),
                    None => {},
                }
            } else {
                assert(item_ids(items, id_keys) == rest.push(s));
                assert(rest.push(s)[rest.len() as int] == s);
            }
        }
    }
}

/// The sorted, repeat-free listing of a payload's identifiers exists, so
/// `catalog_ids` is that listing.
proof fn lemma_catalog_ids(v: Option<Json>, array_keys: Seq<Seq<char>>, id_keys: Seq<Seq<char>>)
    ensures
        strictly_sorted(catalog_ids(v, array_keys, id_keys)),
        forall|s: Seq<char>|
            catalog_ids(v, array_keys, id_keys).contains(s) <==> is_catalog_identifier(v, array_keys, id_keys, s),
{
    let all = match v {
        Some(j) => match catalog_items(j, array_keys) {
            Some(items) => item_ids(items, id_keys),
            None => Seq::empty(),
        },
        None => Seq::empty(),
    };
    assert forall|s: Seq<char>| all.contains(s) <==> is_catalog_identifier(v, array_keys, id_keys, s) by {
        match v {
            Some(j) => match catalog_items(j, array_keys) {
                Some(items) => lemma_item_ids(items, id_keys, s),
                None => {},
            },
            None => {},
        }
    }
    crate::ordered::lemma_sorted_exists(all);
    let l = choose|l: Seq<Seq<char>>| strictly_sorted(l) && forall|y: Seq<char>| l.contains(y) <==> all.contains(y);
    assert(strictly_sorted(l) && forall|y: Seq<char>| l.contains(y) <==> is_catalog_identifier(v, array_keys, id_keys, y));
}

/// Two payloads that advertise the same identifiers list them alike.
proof fn lemma_catalog_ids_same(
    a: Option<Json>,
    b: Option<Json>,
    array_keys: Seq<Seq<char>>,
    id_keys: Seq<Seq<char>>,
)
    requires
        forall|s: Seq<char>|
            is_catalog_identifier(a, array_keys, id_keys, s) <==> is_catalog_identifier(b, array_keys, id_keys, s),
    ensures
        catalog_ids(a, array_keys, id_keys) == catalog_ids(b, array_keys, id_keys),
{
    lemma_catalog_ids(a, array_keys, id_keys);
    lemma_catalog_ids(b, array_keys, id_keys);
    crate::ordered::lemma_sorted_unique(catalog_ids(a, array_keys, id_keys), catalog_ids(b, array_keys, id_keys));
}

/// Whether two snapshots advertise the same identifiers in every section
/// (tools, resources, resource templates, prompts).
pub open spec fn same_identifiers(a: CatalogContractSnapshot, b: CatalogContractSnapshot) -> bool {
    &&& forall|s: Seq<char>|
        is_catalog_identifier(opt_ref_view(a.tools), seq!["tools"@], seq!["name"@], s) <==> is_catalog_identifier(
            opt_ref_view(b.tools),
            seq!["tools"@],
            seq!["name"@],
            s,
        )
    &&& forall|s: Seq<char>|
        is_catalog_identifier(opt_ref_view(a.resources), seq!["resources"@], seq!["uri"@], s)
            <==> is_catalog_identifier(opt_ref_view(b.resources), seq!["resources"@], seq!["uri"@], s)
    &&& forall|s: Seq<char>|
        is_catalog_identifier(
            opt_ref_view(a.resource_templates),
            seq!["resourceTemplates"@, "resource_templates"@],
            seq!["uriTemplate"@, "uri_template"@],
            s,
        ) <==> is_catalog_identifier(
            opt_ref_view(b.resource_templates),
            seq!["resourceTemplates"@, "resource_templates"@],
            seq!["uriTemplate"@, "uri_template"@],
            s,
        )
    &&& forall|s: Seq<char>|
        is_catalog_identifier(opt_ref_view(a.prompts), seq!["prompts"@], seq!["name"@], s)
            <==> is_catalog_identifier(opt_ref_view(b.prompts), seq!["prompts"@], seq!["name"@], s)
}

/// The catalog fingerprint depends only on which identifiers each section
/// advertises (identifiers trimmed of surrounding whitespace): listing the
/// items in another order, repeating them, or padding their identifiers
/// with whitespace leaves it unchanged.
pub proof fn lemma_fingerprint_by_identifiers(a: CatalogContractSnapshot, b: CatalogContractSnapshot)
    requires
        same_identifiers(a, b),
    ensures
        snapshot_fingerprint(a) == snapshot_fingerprint(b),
{
    lemma_catalog_ids_same(opt_ref_view(a.tools), opt_ref_view(b.tools), seq!["tools"@], seq!["name"@]);
    lemma_catalog_ids_same(opt_ref_view(a.resources), opt_ref_view(b.resources), seq!["resources"@], seq!["uri"@]);
    lemma_catalog_ids_same(
        opt_ref_view(a.resource_templates),
        opt_ref_view(b.resource_templates),
        seq!["resourceTemplates"@, "resource_templates"@],
        seq!["uriTemplate"@, "uri_template"@],
    );
    lemma_catalog_ids_same(opt_ref_view(a.prompts), opt_ref_view(b.prompts), seq!["prompts"@], seq!["name"@]);
}

/// How many requirements fail.
pub open spec fn failed_count(reqs: Seq<ContractReq>) -> nat
    decreases reqs.len(),
{
    if reqs.len() == 0 {
        0
    } else {
        failed_count(reqs.drop_last()) + if reqs.last().status == ProbeStepStatus::Error { 1nat } else { 0nat }
    }
}

proof fn lemma_failing_len(reqs: Seq<ContractReq>)
    ensures
        failing(reqs).len() == failed_count(reqs),
    decreases reqs.len(),
{
    if reqs.len() > 0 {
        lemma_failing_len(reqs.drop_last());
    }
}

/// A contract's verdict has one finding for each requirement that fails,
/// so it passes exactly when no requirement fails.
pub proof fn lemma_findings_are_failures(c: CatalogContract, s: CatalogContractSnapshot)
    ensures
        failing(contract_requirements(c, s)).len() == failed_count(contract_requirements(c, s)),
        (failing(contract_requirements(c, s)).len() == 0) <==> (forall|i: int|
            0 <= i < contract_requirements(c, s).len() ==> #[trigger] contract_requirements(c, s)[i].status
                == ProbeStepStatus::Passed),
{
    let reqs = contract_requirements(c, s);
    lemma_failing_len(reqs);
    lemma_no_failures(reqs);
}

proof fn lemma_no_failures(reqs: Seq<ContractReq>)
    ensures
        (failed_count(reqs) == 0) <==> (forall|i: int| 0 <= i < reqs.len() ==> #[trigger] reqs[i].status == ProbeStepStatus::Passed),
    decreases reqs.len(),
{
    if reqs.len() > 0 {
        let t = reqs.drop_last();
        lemma_no_failures(t);
        if failed_count(reqs) == 0 {
            assert forall|i: int| 0 <= i < reqs.len() implies #[trigger] reqs[i].status == ProbeStepStatus::Passed by {
                if i < reqs.len() - 1 {
                    assert(t[i] == reqs[i]);
                }
                match reqs[i].status {
                    ProbeStepStatus::Passed => {},
                    ProbeStepStatus::Error => {},
                }
            }
        }
        if forall|i: int| 0 <= i < reqs.len() ==> #[trigger] reqs[i].status == ProbeStepStatus::Passed {
            assert forall|i: int| 0 <= i < t.len() implies #[trigger] t[i].status == ProbeStepStatus::Passed by {
                assert(t[i] == reqs[i]);
            }
            assert(reqs[reqs.len() - 1].status == ProbeStepStatus::Passed);
        }
    }
}

/// A lowercase hexadecimal digit.
pub open spec fn is_lower_hex(c: char) -> bool {
    ('0' <= c && c <= '9') || ('a' <= c && c <= 'f')
}

proof fn lemma_hex_digits(h: u64, n: nat)
    ensures
        hex_digits(h, n).len() == n,
        forall|i: int| 0 <= i < n ==> is_lower_hex(#[trigger] hex_digits(h, n)[i]),
    decreases n,
{
    if n > 0 {
        lemma_hex_digits(h / 16, (n - 1) as nat);
        let d = h % 16;
        assert(is_lower_hex(crate::text::hex_digit(d))) by {
            if d < 10 {
                assert((((d + 48) as u32) as char) as u32 == d + 48);
            } else {
                assert((((d + 87) as u32) as char) as u32 == d + 87);
            }
        }
        let prev = hex_digits(h / 16, (n - 1) as nat);
        assert forall|i: int| 0 <= i < n implies is_lower_hex(#[trigger] hex_digits(h, n)[i]) by {
            if i < n - 1 {
                assert(hex_digits(h, n)[i] == prev[i]);
            }
        }
    }
}

/// The catalog fingerprint is `fnv1a64:` followed by sixteen lowercase
/// hexadecimal digits.
pub proof fn lemma_fingerprint_format(s: CatalogContractSnapshot)
    ensures
        snapshot_fingerprint(s).len() == 24,
        snapshot_fingerprint(s).take(8) == "fnv1a64:"@,
        forall|i: int| 8 <= i < 24 ==> is_lower_hex(#[trigger] snapshot_fingerprint(s)[i]),
{
    reveal_strlit("fnv1a64:");
    let h = catalog_hash(snapshot_tools(s), snapshot_resources(s), snapshot_templates(s), snapshot_prompts(s));
    lemma_hex_digits(h, 16);
    let f = snapshot_fingerprint(s);
    assert(f == "fnv1a64:"@ + hex_digits(h, 16));
    assert(f.take(8) =~= "fnv1a64:"@);
    assert forall|i: int| 8 <= i < 24 implies is_lower_hex(#[trigger] f[i]) by {
        assert(f[i] == hex_digits(h, 16)[i - 8]);
    }
}

} // verus!
