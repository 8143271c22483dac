//! JSON Schema `$ref` inliner with `allOf` / `anyOf` / `oneOf` flattening.
//!
//! [`resolve_refs`] substitutes every reachable `$ref` with the schema it
//! names under `$defs` (or `definitions`), merges composition keywords into a
//! single `properties` / `required` pair, and strips the definition tables
//! from the result. The behaviour is stated by [`resolve_spec`] and
//! [`resolve_refs_spec`] over the [`JsonV`] view.
use vstd::prelude::*;
use crate::json::{
    Json, JsonV, lookup, key_index, entries_insert, entries_view, json_seq_view, get_object,
    get_array, lemma_array_view, lemma_object_view, lemma_key_index, entries_set, has_key,
    json_contains, find_key, entries_get,
};
use crate::text::{split_seq, owned, chars_of, split_chars, views_of, string_from_chars, str_eq, string_in};

verus! {

/// Maximum recursion depth for `$ref` resolution.
pub const MAX_REF_DEPTH: usize = 32;

// ---------------------------------------------------------------------------
// Errors
// ---------------------------------------------------------------------------

/// Errors produced during `$ref` resolution.
#[derive(Debug)]
pub enum RefResolverError {
    /// A `$ref` target could not be found in the schema's `$defs`.
    Unresolvable { reference: String, module_id: String },
    /// A circular reference chain was detected.
    Circular { module_id: String },
    /// The maximum recursion depth was exceeded.
    MaxDepthExceeded { max_depth: usize, module_id: String },
}

/// The outcome of a resolution, without the module id carried for messages.
pub enum RefErr {
    Unresolvable(Seq<char>),
    Circular,
    MaxDepth,
}

/// The message of a resolution error.
pub open spec fn ref_error_text(e: RefResolverError) -> Seq<char> {
    match e {
        RefResolverError::Unresolvable { reference, module_id } => "unresolvable $ref '"@
            + reference@ + "' in module '"@ + module_id@ + "' (exit 45)"@,
        RefResolverError::Circular { module_id } => "circular $ref detected in module '"@
            + module_id@ + "' (exit 48)"@,
        RefResolverError::MaxDepthExceeded { max_depth, module_id } =>
            "$ref resolution exceeded max depth "@ + crate::text::decimal(max_depth as nat)
            + " in module '"@ + module_id@ + "'"@,
    }
}

impl RefResolverError {
    /// The error's message.
    pub fn message(&self) -> (r: String)
        ensures
            r@ == ref_error_text(*self),
    {
        match self {
            RefResolverError::Unresolvable { reference, module_id } => {
                let mut r = crate::text::owned("unresolvable $ref '");
                crate::text::push_str(&mut r, reference.as_str());
                crate::text::push_str(&mut r, "' in module '");
                crate::text::push_str(&mut r, module_id.as_str());
                crate::text::push_str(&mut r, "' (exit 45)");
                r
            },
            RefResolverError::Circular { module_id } => crate::text::concat3(
                "circular $ref detected in module '",
                module_id.as_str(),
                "' (exit 48)",
            ),
            RefResolverError::MaxDepthExceeded { max_depth, module_id } => {
                let mut r = crate::text::owned("$ref resolution exceeded max depth ");
                let d = crate::text::usize_to_string(*max_depth);
                crate::text::push_str(&mut r, d.as_str());
                crate::text::push_str(&mut r, " in module '");
                crate::text::push_str(&mut r, module_id.as_str());
                crate::text::push_str(&mut r, "'");
                r
            },
        }
    }

    /// The error names `module_id`, and a depth error the limit `max_depth`.
    pub open spec fn for_module(&self, module_id: Seq<char>, max_depth: nat) -> bool {
        match self {
            RefResolverError::Unresolvable { module_id: m, .. } => m@ == module_id,
            RefResolverError::Circular { module_id: m } => m@ == module_id,
            RefResolverError::MaxDepthExceeded { max_depth: d, module_id: m } => m@ == module_id && d
                == max_depth,
        }
    }

    pub open spec fn kind(&self) -> RefErr {
        match self {
            RefResolverError::Unresolvable { reference, .. } => RefErr::Unresolvable(reference@),
            RefResolverError::Circular { .. } => RefErr::Circular,
            RefResolverError::MaxDepthExceeded { .. } => RefErr::MaxDepth,
        }
    }
}

// ---------------------------------------------------------------------------
// Specification
// ---------------------------------------------------------------------------

/// Remaining `$ref` nesting budget.
pub open spec fn ref_budget(depth: nat, max: nat) -> nat {
    if depth < max {
        (max - depth) as nat
    } else {
        0
    }
}

/// The nesting depth passed to a composition branch. Only `depth >= max`
/// is ever observed, so counting stops once the limit is reached.
pub open spec fn next_depth(depth: nat, max: nat) -> nat {
    if depth < max {
        depth + 1
    } else {
        depth
    }
}

/// The definition name a `$ref` path points at: its last `/` segment
/// (`"#/$defs/Address"` names `"Address"`).
pub open spec fn ref_key(path: Seq<char>) -> Seq<char> {
    split_seq(path, '/').last()
}

/// A member of `entries` under `k` is a structural part of `entries`.
pub proof fn lemma_lookup_decreases(entries: Seq<(Seq<char>, JsonV)>, k: Seq<char>)
    ensures
        lookup(entries, k) matches Some(v) ==> decreases_to!(entries => v),
    decreases entries.len(),
{
    if entries.len() > 0 {
        if entries[0].0 == k {
            assert(decreases_to!(entries => entries[0]));
            assert(decreases_to!(entries[0] => entries[0].1));
        } else {
            lemma_lookup_decreases(entries.drop_first(), k);
            assert(decreases_to!(entries => entries.drop_first()));
        }
    }
}

/// The `properties` members of a branch (empty unless an object).
pub open spec fn props_of(b: JsonV) -> Seq<(Seq<char>, JsonV)> {
    match get_object(b, "properties"@) {
        Some(o) => o,
        None => Seq::empty(),
    }
}

/// The `required` items of a branch (empty unless an array).
pub open spec fn required_of(b: JsonV) -> Seq<JsonV> {
    match get_array(b, "required"@) {
        Some(a) => a,
        None => Seq::empty(),
    }
}

/// Inserting every entry of `extra` into `base`, in order (later wins).
pub open spec fn insert_all(
    base: Seq<(Seq<char>, JsonV)>,
    extra: Seq<(Seq<char>, JsonV)>,
) -> Seq<(Seq<char>, JsonV)>
    decreases extra.len(),
{
    if extra.len() == 0 {
        base
    } else {
        entries_insert(insert_all(base, extra.drop_last()), extra.last().0, extra.last().1)
    }
}

/// The union of all branches' `properties`, later branches winning.
pub open spec fn union_props(branches: Seq<JsonV>) -> Seq<(Seq<char>, JsonV)>
    decreases branches.len(),
{
    if branches.len() == 0 {
        Seq::empty()
    } else {
        insert_all(union_props(branches.drop_last()), props_of(branches.last()))
    }
}

/// All branches' `required` items, concatenated in branch order.
pub open spec fn concat_required(branches: Seq<JsonV>) -> Seq<JsonV>
    decreases branches.len(),
{
    if branches.len() == 0 {
        Seq::empty()
    } else {
        concat_required(branches.drop_last()) + required_of(branches.last())
    }
}

/// Adds each entry of `extra` whose key `base` lacks, in order.
pub open spec fn insert_missing_all(
    base: Seq<(Seq<char>, JsonV)>,
    extra: Seq<(Seq<char>, JsonV)>,
) -> Seq<(Seq<char>, JsonV)>
    decreases extra.len(),
{
    if extra.len() == 0 {
        base
    } else {
        let b = insert_missing_all(base, extra.drop_last());
        if lookup(b, extra.last().0) is Some {
            b
        } else {
            b.push(extra.last())
        }
    }
}

/// Appends each item of `extra` not already present, in order.
pub open spec fn push_missing_all(base: Seq<JsonV>, extra: Seq<JsonV>) -> Seq<JsonV>
    decreases extra.len(),
{
    if extra.len() == 0 {
        base
    } else {
        let b = push_missing_all(base, extra.drop_last());
        if b.contains(extra.last()) {
            b
        } else {
            b.push(extra.last())
        }
    }
}

/// Copies the entries of `node` whose key is not `skip` and not yet in `base`.
pub open spec fn copy_missing(
    base: Seq<(Seq<char>, JsonV)>,
    node: Seq<(Seq<char>, JsonV)>,
    skip: Seq<char>,
) -> Seq<(Seq<char>, JsonV)>
    decreases node.len(),
{
    if node.len() == 0 {
        base
    } else {
        let b = copy_missing(base, node.drop_last(), skip);
        if node.last().0 != skip && lookup(b, node.last().0) is None {
            b.push(node.last())
        } else {
            b
        }
    }
}

/// The object an `allOf` node becomes, given its resolved branches.
pub open spec fn allof_result(entries: Seq<(Seq<char>, JsonV)>, branches: Seq<JsonV>) -> JsonV {
    let props = match lookup(entries, "properties"@) {
        Some(JsonV::Object(pp)) => insert_missing_all(union_props(branches), pp),
        _ => union_props(branches),
    };
    let req = match lookup(entries, "required"@) {
        Some(JsonV::Array(pr)) => push_missing_all(concat_required(branches), pr),
        _ => concat_required(branches),
    };
    JsonV::Object(
        copy_missing(
            seq![("properties"@, JsonV::Object(props)), ("required"@, JsonV::Array(req))],
            entries,
            "allOf"@,
        ),
    )
}

/// The string items of an array, in order.
pub open spec fn str_items(a: Seq<JsonV>) -> Seq<Seq<char>>
    decreases a.len(),
{
    if a.len() == 0 {
        Seq::empty()
    } else {
        match a.last() {
            JsonV::Str(s) => str_items(a.drop_last()).push(s),
            _ => str_items(a.drop_last()),
        }
    }
}

/// Whether every branch after the first requires `x`.
pub open spec fn required_by_rest(branches: Seq<JsonV>, x: Seq<char>) -> bool {
    forall|j: int| 1 <= j < branches.len() ==> str_items(required_of(branches[j])).contains(x)
}

/// The first branch's required names (first occurrences, in order) that every
/// other branch requires too.
pub open spec fn common_names(first: Seq<Seq<char>>, branches: Seq<JsonV>) -> Seq<Seq<char>>
    decreases first.len(),
{
    if first.len() == 0 {
        Seq::empty()
    } else {
        let acc = common_names(first.drop_last(), branches);
        let x = first.last();
        if required_by_rest(branches, x) && !acc.contains(x) {
            acc.push(x)
        } else {
            acc
        }
    }
}

/// The `required` array of an `anyOf` / `oneOf` node: the names every branch
/// requires. (The set is what is fixed; it is listed in the first branch's
/// order.)
pub open spec fn common_required(branches: Seq<JsonV>) -> Seq<JsonV> {
    if branches.len() == 0 {
        Seq::empty()
    } else {
        common_names(str_items(required_of(branches[0])), branches).map_values(
            |s: Seq<char>| JsonV::Str(s),
        )
    }
}

/// The object an `anyOf` / `oneOf` node becomes, given its resolved branches.
pub open spec fn anyof_result(
    entries: Seq<(Seq<char>, JsonV)>,
    branches: Seq<JsonV>,
    keyword: Seq<char>,
) -> JsonV {
    JsonV::Object(
        copy_missing(
            seq![
                ("properties"@, JsonV::Object(union_props(branches))),
                ("required"@, JsonV::Array(common_required(branches))),
            ],
            entries,
            keyword,
        ),
    )
}

/// Resolution of one schema node at `depth`, with `visiting` the `$ref`
/// paths on the current chain.
pub open spec fn resolve_spec(
    node: JsonV,
    defs: Seq<(Seq<char>, JsonV)>,
    depth: nat,
    max: nat,
    visiting: Set<Seq<char>>,
) -> Result<JsonV, RefErr>
    decreases ref_budget(depth, max), node,
{
    match node {
        JsonV::Object(entries) => {
            if lookup(entries, "$ref"@) is Some {
                let path = match lookup(entries, "$ref"@).unwrap() {
                    JsonV::Str(s) => s,
                    _ => Seq::empty(),
                };
                if depth >= max {
                    Err(RefErr::MaxDepth)
                } else if visiting.contains(path) {
                    Err(RefErr::Circular)
                } else {
                    match lookup(defs, ref_key(path)) {
                        None => Err(RefErr::Unresolvable(path)),
                        Some(def) => resolve_spec(def, defs, depth + 1, max, visiting.insert(path)),
                    }
                }
            } else if lookup(entries, "allOf"@) is Some {
                proof {
                    lemma_lookup_decreases(entries, "allOf"@);
                }
                let branches = match lookup(entries, "allOf"@).unwrap() {
                    JsonV::Array(subs) => resolve_items(
                        subs,
                        defs,
                        next_depth(depth, max),
                        max,
                        visiting,
                    ),
                    _ => Ok(Seq::empty()),
                };
                match branches {
                    Err(e) => Err(e),
                    Ok(b) => Ok(allof_result(entries, b)),
                }
            } else if lookup(entries, "anyOf"@) is Some {
                proof {
                    lemma_lookup_decreases(entries, "anyOf"@);
                }
                let branches = match lookup(entries, "anyOf"@).unwrap() {
                    JsonV::Array(subs) => resolve_items(
                        subs,
                        defs,
                        next_depth(depth, max),
                        max,
                        visiting,
                    ),
                    _ => Ok(Seq::empty()),
                };
                match branches {
                    Err(e) => Err(e),
                    Ok(b) => Ok(anyof_result(entries, b, "anyOf"@)),
                }
            } else if lookup(entries, "oneOf"@) is Some {
                proof {
                    lemma_lookup_decreases(entries, "oneOf"@);
                }
                let branches = match lookup(entries, "oneOf"@).unwrap() {
                    JsonV::Array(subs) => resolve_items(
                        subs,
                        defs,
                        next_depth(depth, max),
                        max,
                        visiting,
                    ),
                    _ => Ok(Seq::empty()),
                };
                match branches {
                    Err(e) => Err(e),
                    Ok(b) => Ok(anyof_result(entries, b, "oneOf"@)),
                }
            } else {
                match resolve_entries(entries, defs, depth, max, visiting) {
                    Err(e) => Err(e),
                    Ok(es) => Ok(JsonV::Object(es)),
                }
            }
        },
        JsonV::Array(items) => match resolve_items(items, defs, depth, max, visiting) {
            Err(e) => Err(e),
            Ok(r) => Ok(JsonV::Array(r)),
        },
        _ => Ok(node),
    }
}

/// Resolving a list of nodes left to right; the first failure wins.
pub open spec fn resolve_items(
    items: Seq<JsonV>,
    defs: Seq<(Seq<char>, JsonV)>,
    depth: nat,
    max: nat,
    visiting: Set<Seq<char>>,
) -> Result<Seq<JsonV>, RefErr>
    decreases ref_budget(depth, max), items,
{
    if items.len() == 0 {
        Ok(Seq::empty())
    } else {
        match resolve_items(items.drop_last(), defs, depth, max, visiting) {
            Err(e) => Err(e),
            Ok(prefix) => match resolve_spec(items.last(), defs, depth, max, visiting) {
                Err(e) => Err(e),
                Ok(x) => Ok(prefix.push(x)),
            },
        }
    }
}

/// Resolving every member value of an object, keys unchanged.
pub open spec fn resolve_entries(
    entries: Seq<(Seq<char>, JsonV)>,
    defs: Seq<(Seq<char>, JsonV)>,
    depth: nat,
    max: nat,
    visiting: Set<Seq<char>>,
) -> Result<Seq<(Seq<char>, JsonV)>, RefErr>
    decreases ref_budget(depth, max), entries,
{
    if entries.len() == 0 {
        Ok(Seq::empty())
    } else {
        match resolve_entries(entries.drop_last(), defs, depth, max, visiting) {
            Err(e) => Err(e),
            Ok(prefix) => match resolve_spec(entries.last().1, defs, depth, max, visiting) {
                Err(e) => Err(e),
                Ok(x) => Ok(prefix.push((entries.last().0, x))),
            },
        }
    }
}

/// The definition table of a schema: `$defs`, else `definitions`, when it is
/// an object.
pub open spec fn defs_of(schema: JsonV) -> Seq<(Seq<char>, JsonV)> {
    let found = match schema.get("$defs"@) {
        Some(d) => Some(d),
        None => schema.get("definitions"@),
    };
    match found {
        Some(JsonV::Object(o)) => o,
        _ => Seq::empty(),
    }
}

/// `Map::remove` under `preserve_order` (a swap-remove).
pub open spec fn swap_remove_key(entries: Seq<(Seq<char>, JsonV)>, k: Seq<char>) -> Seq<
    (Seq<char>, JsonV),
> {
    match key_index(entries, k) {
        Some(i) => entries.update(i, entries.last()).drop_last(),
        None => entries,
    }
}

/// The result with its definition tables removed.
pub open spec fn strip_defs(v: JsonV) -> JsonV {
    match v {
        JsonV::Object(e) => JsonV::Object(
            swap_remove_key(swap_remove_key(e, "$defs"@), "definitions"@),
        ),
        _ => v,
    }
}

/// What [`resolve_refs`] computes for `schema` with depth limit `max`.
pub open spec fn resolve_refs_spec(schema: JsonV, max: nat) -> Result<JsonV, RefErr> {
    match resolve_spec(schema, defs_of(schema), 0, max, Set::empty()) {
        Err(e) => Err(e),
        Ok(r) => Ok(strip_defs(r)),
    }
}

// ---------------------------------------------------------------------------
// What resolution leaves behind
// ---------------------------------------------------------------------------

/// No object anywhere in `v` has a `$ref` member.
pub open spec fn ref_free(v: JsonV) -> bool
    decreases v, 1nat,
{
    match v {
        JsonV::Object(es) => lookup(es, "$ref"@) is None && entries_ref_free(es),
        JsonV::Array(items) => items_ref_free(items),
        JsonV::Tagged(_, inner) => ref_free(*inner),
        _ => true,
    }
}

pub open spec fn items_ref_free(items: Seq<JsonV>) -> bool
    decreases items, 0nat,
{
    items.len() == 0 || (items_ref_free(items.drop_last()) && ref_free(items.last()))
}

pub open spec fn entries_ref_free(es: Seq<(Seq<char>, JsonV)>) -> bool
    decreases es, 0nat,
{
    es.len() == 0 || (entries_ref_free(es.drop_last()) && ref_free(es.last().1))
}

/// A plain JSON schema value: no YAML tag anywhere, and no object with an
/// `allOf`, `anyOf` or `oneOf` member.
pub open spec fn plain_schema(v: JsonV) -> bool
    decreases v, 1nat,
{
    match v {
        JsonV::Object(es) => lookup(es, "allOf"@) is None && lookup(es, "anyOf"@) is None && lookup(
            es,
            "oneOf"@,
        ) is None && entries_plain(es),
        JsonV::Array(items) => items_plain(items),
        JsonV::Tagged(_, _) => false,
        _ => true,
    }
}

pub open spec fn items_plain(items: Seq<JsonV>) -> bool
    decreases items, 0nat,
{
    items.len() == 0 || (items_plain(items.drop_last()) && plain_schema(items.last()))
}

pub open spec fn entries_plain(es: Seq<(Seq<char>, JsonV)>) -> bool
    decreases es, 0nat,
{
    es.len() == 0 || (entries_plain(es.drop_last()) && plain_schema(es.last().1))
}

proof fn lemma_entries_plain_at(es: Seq<(Seq<char>, JsonV)>)
    ensures
        entries_plain(es) <==> forall|i: int| 0 <= i < es.len() ==> plain_schema(#[trigger] es[i].1),
    decreases es.len(),
{
    if es.len() > 0 {
        let d = es.drop_last();
        lemma_entries_plain_at(d);
        assert forall|i: int| 0 <= i < d.len() implies #[trigger] d[i].1 == es[i].1 by {}
        assert(es.last() == es[es.len() - 1]);
        if forall|i: int| 0 <= i < es.len() ==> plain_schema(#[trigger] es[i].1) {
            assert(plain_schema(es[es.len() - 1].1));
            assert forall|i: int| 0 <= i < d.len() implies plain_schema(#[trigger] d[i].1) by {
                assert(plain_schema(es[i].1));
            }
        }
        if entries_plain(es) {
            assert forall|i: int| 0 <= i < es.len() implies plain_schema(#[trigger] es[i].1) by {
                if i < d.len() {
                    assert(plain_schema(d[i].1));
                }
            }
        }
    }
}

proof fn lemma_entries_ref_free_at(es: Seq<(Seq<char>, JsonV)>)
    ensures
        entries_ref_free(es) <==> forall|i: int| 0 <= i < es.len() ==> ref_free(#[trigger] es[i].1),
    decreases es.len(),
{
    if es.len() > 0 {
        let d = es.drop_last();
        lemma_entries_ref_free_at(d);
        assert forall|i: int| 0 <= i < d.len() implies #[trigger] d[i].1 == es[i].1 by {}
        assert(es.last() == es[es.len() - 1]);
        if forall|i: int| 0 <= i < es.len() ==> ref_free(#[trigger] es[i].1) {
            assert(ref_free(es[es.len() - 1].1));
            assert forall|i: int| 0 <= i < d.len() implies ref_free(#[trigger] d[i].1) by {
                assert(ref_free(es[i].1));
            }
        }
        if entries_ref_free(es) {
            assert forall|i: int| 0 <= i < es.len() implies ref_free(#[trigger] es[i].1) by {
                if i < d.len() {
                    assert(ref_free(d[i].1));
                }
            }
        }
    }
}

proof fn lemma_lookup_none(es: Seq<(Seq<char>, JsonV)>, k: Seq<char>)
    ensures
        lookup(es, k) is None <==> forall|i: int| 0 <= i < es.len() ==> #[trigger] es[i].0 != k,
    decreases es.len(),
{
    if es.len() > 0 {
        lemma_lookup_none(es.drop_first(), k);
        assert forall|i: int| 0 < i < es.len() implies #[trigger] es[i].0 == es.drop_first()[i - 1].0 by {}
    }
}

proof fn lemma_lookup_member(es: Seq<(Seq<char>, JsonV)>, k: Seq<char>)
    ensures
        lookup(es, k) matches Some(d) ==> exists|i: int| 0 <= i < es.len() && #[trigger] es[i].1 == d,
    decreases es.len(),
{
    if es.len() > 0 && es[0].0 != k {
        lemma_lookup_member(es.drop_first(), k);
        if lookup(es, k) is Some {
            let d = lookup(es, k)->0;
            let j = choose|j: int| 0 <= j < es.drop_first().len() && #[trigger] es.drop_first()[j].1 == d;
            assert(es[j + 1].1 == d);
        }
    }
}

proof fn lemma_items_ref_free(
    items: Seq<JsonV>,
    defs: Seq<(Seq<char>, JsonV)>,
    depth: nat,
    max: nat,
    visiting: Set<Seq<char>>,
)
    requires
        items_plain(items),
        entries_plain(defs),
    ensures
        resolve_items(items, defs, depth, max, visiting) matches Ok(r) ==> items_ref_free(r),
    decreases ref_budget(depth, max), items, 0nat,
{
    if items.len() > 0 {
        lemma_items_ref_free(items.drop_last(), defs, depth, max, visiting);
        lemma_resolve_ref_free(items.last(), defs, depth, max, visiting);
        if let Ok(prefix) = resolve_items(items.drop_last(), defs, depth, max, visiting) {
            if let Ok(x) = resolve_spec(items.last(), defs, depth, max, visiting) {
                assert(prefix.push(x).drop_last() =~= prefix);
            }
        }
    }
}

proof fn lemma_entries_ref_free(
    entries: Seq<(Seq<char>, JsonV)>,
    defs: Seq<(Seq<char>, JsonV)>,
    depth: nat,
    max: nat,
    visiting: Set<Seq<char>>,
)
    requires
        entries_plain(entries),
        entries_plain(defs),
    ensures
        resolve_entries(entries, defs, depth, max, visiting) matches Ok(r) ==> entries_ref_free(r)
            && r.len() == entries.len() && forall|i: int| 0 <= i < r.len() ==> #[trigger] r[i].0 == entries[i].0,
    decreases ref_budget(depth, max), entries, 0nat,
{
    if entries.len() > 0 {
        lemma_entries_ref_free(entries.drop_last(), defs, depth, max, visiting);
        lemma_resolve_ref_free(entries.last().1, defs, depth, max, visiting);
        if let Ok(prefix) = resolve_entries(entries.drop_last(), defs, depth, max, visiting) {
            if let Ok(x) = resolve_spec(entries.last().1, defs, depth, max, visiting) {
                let r = prefix.push((entries.last().0, x));
                assert(r.drop_last() =~= prefix);
                assert forall|i: int| 0 <= i < r.len() implies #[trigger] r[i].0 == entries[i].0 by {
                    if i < prefix.len() {
                        assert(r[i] == prefix[i]);
                        assert(entries.drop_last()[i] == entries[i]);
                    }
                }
            }
        }
    }
}

proof fn lemma_resolve_ref_free(
    node: JsonV,
    defs: Seq<(Seq<char>, JsonV)>,
    depth: nat,
    max: nat,
    visiting: Set<Seq<char>>,
)
    requires
        plain_schema(node),
        entries_plain(defs),
    ensures
        resolve_spec(node, defs, depth, max, visiting) matches Ok(r) ==> ref_free(r),
    decreases ref_budget(depth, max), node, 1nat,
{
    match node {
        JsonV::Object(entries) => {
            if lookup(entries, "$ref"@) is Some {
                let path = match lookup(entries, "$ref"@).unwrap() {
                    JsonV::Str(s) => s,
                    _ => Seq::empty(),
                };
                if depth < max && !visiting.contains(path) {
                    if let Some(def) = lookup(defs, ref_key(path)) {
                        lemma_lookup_member(defs, ref_key(path));
                        lemma_entries_plain_at(defs);
                        let j = choose|j: int| 0 <= j < defs.len() && #[trigger] defs[j].1 == def;
                        assert(plain_schema(defs[j].1));
                        lemma_resolve_ref_free(def, defs, depth + 1, max, visiting.insert(path));
                    }
                }
            } else {
                lemma_entries_ref_free(entries, defs, depth, max, visiting);
                if let Ok(es) = resolve_entries(entries, defs, depth, max, visiting) {
                    lemma_lookup_none(entries, "$ref"@);
                    lemma_lookup_none(es, "$ref"@);
                }
            }
        },
        JsonV::Array(items) => {
            lemma_items_ref_free(items, defs, depth, max, visiting);
        },
        _ => {},
    }
}

/// The members of an object have distinct names.
pub open spec fn distinct_keys(es: Seq<(Seq<char>, JsonV)>) -> bool {
    forall|i: int, j: int| 0 <= i < j < es.len() ==> #[trigger] es[i].0 != #[trigger] es[j].0
}

proof fn lemma_swap_remove_distinct(e: Seq<(Seq<char>, JsonV)>, k: Seq<char>)
    requires
        distinct_keys(e),
    ensures
        distinct_keys(swap_remove_key(e, k)),
        lookup(swap_remove_key(e, k), k) is None,
        forall|i: int| #![trigger swap_remove_key(e, k)[i]] 0 <= i < swap_remove_key(e, k).len() ==> (exists|j: int| 0 <= j < e.len() && #[trigger] e[j] == swap_remove_key(e, k)[i]),
{
    let s = swap_remove_key(e, k);
    lemma_key_index(e, k);
    match key_index(e, k) {
        Some(m) => {
            let n = e.len() - 1;
            assert forall|i: int| 0 <= i < s.len() implies #[trigger] s[i] == (if i == m { e[n] } else { e[i] }) by {}
            assert forall|i: int| 0 <= i < s.len() implies #[trigger] s[i].0 != k by {
                if i == m {
                    assert(m < n);
                    assert(e[m].0 != e[n].0);
                } else if i < m {
                    assert(e[i].0 != e[m].0);
                } else {
                    assert(e[m].0 != e[i].0);
                }
            }
            assert forall|i: int, j: int| 0 <= i < j < s.len() implies #[trigger] s[i].0 != #[trigger] s[j].0 by {
                let a = if i == m { n } else { i };
                let b = if j == m { n } else { j };
                assert(s[i] == e[a] && s[j] == e[b]);
                assert(a != b);
                if a < b {
                    assert(e[a].0 != e[b].0);
                } else {
                    assert(e[b].0 != e[a].0);
                }
            }
            assert forall|i: int| #![trigger s[i]] 0 <= i < s.len() implies (exists|j: int| 0 <= j < e.len() && #[trigger] e[j] == s[i]) by {
                if i == m {
                    assert(e[n] == s[i]);
                } else {
                    assert(e[i] == s[i]);
                }
            }
            lemma_lookup_none(s, k);
        },
        None => {
            assert forall|i: int| #![trigger s[i]] 0 <= i < s.len() implies (exists|j: int| 0 <= j < e.len() && #[trigger] e[j] == s[i]) by {
                assert(e[i] == s[i]);
            }
        },
    }
}

/// Every object anywhere in `v` has members with distinct names.
pub open spec fn keys_distinct(v: JsonV) -> bool
    decreases v, 1nat,
{
    match v {
        JsonV::Object(es) => distinct_keys(es) && entries_keys_distinct(es),
        JsonV::Array(items) => items_keys_distinct(items),
        JsonV::Tagged(_, inner) => keys_distinct(*inner),
        _ => true,
    }
}

pub open spec fn items_keys_distinct(items: Seq<JsonV>) -> bool
    decreases items, 0nat,
{
    items.len() == 0 || (items_keys_distinct(items.drop_last()) && keys_distinct(items.last()))
}

pub open spec fn entries_keys_distinct(es: Seq<(Seq<char>, JsonV)>) -> bool
    decreases es, 0nat,
{
    es.len() == 0 || (entries_keys_distinct(es.drop_last()) && keys_distinct(es.last().1))
}

proof fn lemma_entries_keys_distinct_at(es: Seq<(Seq<char>, JsonV)>)
    ensures
        entries_keys_distinct(es) <==> forall|i: int| 0 <= i < es.len() ==> keys_distinct(#[trigger] es[i].1),
    decreases es.len(),
{
    if es.len() > 0 {
        let d = es.drop_last();
        lemma_entries_keys_distinct_at(d);
        assert forall|i: int| 0 <= i < d.len() implies #[trigger] d[i].1 == es[i].1 by {}
        assert(es.last() == es[es.len() - 1]);
        if forall|i: int| 0 <= i < es.len() ==> keys_distinct(#[trigger] es[i].1) {
            assert(keys_distinct(es[es.len() - 1].1));
            assert forall|i: int| 0 <= i < d.len() implies keys_distinct(#[trigger] d[i].1) by {
                assert(keys_distinct(es[i].1));
            }
        }
        if entries_keys_distinct(es) {
            assert forall|i: int| 0 <= i < es.len() implies keys_distinct(#[trigger] es[i].1) by {
                if i < d.len() {
                    assert(keys_distinct(d[i].1));
                }
            }
        }
    }
}

proof fn lemma_resolved_object_distinct(
    node: JsonV,
    defs: Seq<(Seq<char>, JsonV)>,
    depth: nat,
    max: nat,
    visiting: Set<Seq<char>>,
)
    requires
        plain_schema(node),
        keys_distinct(node),
        entries_plain(defs),
        entries_keys_distinct(defs),
    ensures
        resolve_spec(node, defs, depth, max, visiting) matches Ok(JsonV::Object(e)) ==> distinct_keys(e),
    decreases ref_budget(depth, max), node,
{
    if let JsonV::Object(entries) = node {
        if lookup(entries, "$ref"@) is Some {
            let path = match lookup(entries, "$ref"@).unwrap() {
                JsonV::Str(s) => s,
                _ => Seq::empty(),
            };
            if depth < max && !visiting.contains(path) {
                if let Some(def) = lookup(defs, ref_key(path)) {
                    lemma_lookup_member(defs, ref_key(path));
                    lemma_entries_plain_at(defs);
                    lemma_entries_keys_distinct_at(defs);
                    let j = choose|j: int| 0 <= j < defs.len() && #[trigger] defs[j].1 == def;
                    assert(plain_schema(defs[j].1) && keys_distinct(defs[j].1));
                    lemma_resolved_object_distinct(def, defs, depth + 1, max, visiting.insert(path));
                }
            }
        } else {
            lemma_entries_ref_free(entries, defs, depth, max, visiting);
            if let Ok(es) = resolve_entries(entries, defs, depth, max, visiting) {
                assert forall|i: int, j: int| 0 <= i < j < es.len() implies #[trigger] es[i].0 != #[trigger] es[j].0 by {
                    assert(es[i].0 == entries[i].0 && es[j].0 == entries[j].0);
                }
            }
        }
    }
}

/// Every `$ref` is inlined: resolving a plain schema (no YAML tags, no
/// `allOf` / `anyOf` / `oneOf` objects, whose merges copy the parent's other
/// members as they are) leaves no object with a `$ref` member, at any depth,
/// arrays included; and for a top-level object without a `$ref` member whose
/// members have distinct names, or for any schema in which every object's
/// members have distinct names, neither `$defs` nor `definitions` is left at
/// the top level.
pub proof fn lemma_resolved_schema_is_ref_free(schema: JsonV, max: nat)
    requires
        plain_schema(schema),
    ensures
        resolve_refs_spec(schema, max) matches Ok(r) ==> ref_free(r),
        keys_distinct(schema) ==> (resolve_refs_spec(schema, max) matches Ok(r) ==> r.get("$defs"@) is None
            && r.get("definitions"@) is None),
        (schema matches JsonV::Object(es) && lookup(es, "$ref"@) is None && distinct_keys(es))
            ==> (resolve_refs_spec(schema, max) matches Ok(r) ==> r.get("$defs"@) is None && r.get(
            "definitions"@,
        ) is None),
{
    let defs = defs_of(schema);
    assert(entries_plain(defs)) by {
        if let JsonV::Object(es) = schema {
            lemma_entries_plain_at(es);
            lemma_entries_plain_at(defs);
            lemma_lookup_member(es, "$defs"@);
            lemma_lookup_member(es, "definitions"@);
            if defs.len() > 0 {
                let found = if lookup(es, "$defs"@) is Some {
                    lookup(es, "$defs"@)
                } else {
                    lookup(es, "definitions"@)
                };
                let d = found->0;
                let j = choose|j: int| 0 <= j < es.len() && #[trigger] es[j].1 == d;
                assert(plain_schema(es[j].1));
            }
        }
    }
    if keys_distinct(schema) {
        assert(entries_keys_distinct(defs)) by {
            if let JsonV::Object(es) = schema {
                lemma_entries_keys_distinct_at(es);
                lemma_lookup_member(es, "$defs"@);
                lemma_lookup_member(es, "definitions"@);
                if defs.len() > 0 {
                    let found = if lookup(es, "$defs"@) is Some {
                        lookup(es, "$defs"@)
                    } else {
                        lookup(es, "definitions"@)
                    };
                    let d = found->0;
                    let j = choose|j: int| 0 <= j < es.len() && #[trigger] es[j].1 == d;
                    assert(keys_distinct(es[j].1));
                }
            }
        }
        lemma_resolved_object_distinct(schema, defs, 0, max, Set::empty());
    }
    lemma_resolve_ref_free(schema, defs, 0, max, Set::empty());
    if let Ok(r) = resolve_spec(schema, defs, 0, max, Set::empty()) {
        if let JsonV::Object(e) = r {
            lemma_strip_keeps_ref_free(e, "$defs"@);
            lemma_strip_keeps_ref_free(swap_remove_key(e, "$defs"@), "definitions"@);
            if keys_distinct(schema) {
                let s1 = swap_remove_key(e, "$defs"@);
                lemma_swap_remove_distinct(e, "$defs"@);
                lemma_swap_remove_distinct(s1, "definitions"@);
                let s2 = swap_remove_key(s1, "definitions"@);
                lemma_lookup_none(s1, "$defs"@);
                lemma_lookup_none(s2, "$defs"@);
                assert forall|i: int| 0 <= i < s2.len() implies #[trigger] s2[i].0 != "$defs"@ by {
                    let j = choose|j: int| 0 <= j < s1.len() && #[trigger] s1[j] == s2[i];
                    assert(s1[j].0 != "$defs"@);
                }
            }
            if let JsonV::Object(es) = schema {
                if lookup(es, "$ref"@) is None && distinct_keys(es) {
                    lemma_entries_ref_free(es, defs, 0, max, Set::empty());
                    assert(distinct_keys(e)) by {
                        assert forall|i: int, j: int| 0 <= i < j < e.len() implies #[trigger] e[i].0 != #[trigger] e[j].0 by {
                            assert(e[i].0 == es[i].0 && e[j].0 == es[j].0);
                        }
                    }
                    let s1 = swap_remove_key(e, "$defs"@);
                    lemma_swap_remove_distinct(e, "$defs"@);
                    lemma_swap_remove_distinct(s1, "definitions"@);
                    let s2 = swap_remove_key(s1, "definitions"@);
                    lemma_lookup_none(s1, "$defs"@);
                    lemma_lookup_none(s2, "$defs"@);
                    assert forall|i: int| 0 <= i < s2.len() implies #[trigger] s2[i].0 != "$defs"@ by {
                        let j = choose|j: int| 0 <= j < s1.len() && #[trigger] s1[j] == s2[i];
                        assert(s1[j].0 != "$defs"@);
                    }
                }
            }
        }
    }
}

proof fn lemma_strip_keeps_ref_free(e: Seq<(Seq<char>, JsonV)>, k: Seq<char>)
    requires
        ref_free(JsonV::Object(e)),
    ensures
        ref_free(JsonV::Object(swap_remove_key(e, k))),
{
    let s = swap_remove_key(e, k);
    lemma_entries_ref_free_at(e);
    lemma_entries_ref_free_at(s);
    lemma_lookup_none(e, "$ref"@);
    lemma_lookup_none(s, "$ref"@);
    lemma_key_index(e, k);
    assert forall|i: int| #![trigger s[i]] 0 <= i < s.len() implies (exists|j: int| 0 <= j < e.len() && #[trigger] e[j] == s[i]) by {
        match key_index(e, k) {
            Some(m) => {
                if i == m {
                    assert(e[e.len() - 1] == s[i]);
                } else {
                    assert(e[i] == s[i]);
                }
            },
            None => {
                assert(e[i] == s[i]);
            },
        }
    }
    assert forall|i: int| 0 <= i < s.len() implies ref_free(#[trigger] s[i].1) && s[i].0 != "$ref"@ by {
        let j = choose|j: int| 0 <= j < e.len() && #[trigger] e[j] == s[i];
        assert(ref_free(e[j].1) && e[j].0 != "$ref"@);
    }
}

proof fn lemma_lookup_some_split(s: Seq<(Seq<char>, JsonV)>, k: Seq<char>)
    requires
        s.len() > 0,
        lookup(s, k) is Some,
    ensures
        lookup(s.drop_last(), k) is Some || s.last().0 == k,
{
    lemma_lookup_none(s, k);
    lemma_lookup_none(s.drop_last(), k);
    let i = choose|i: int| 0 <= i < s.len() && #[trigger] s[i].0 == k;
    if i < s.len() - 1 {
        assert(s.drop_last()[i].0 == k);
    }
}

proof fn lemma_lookup_push_some(s: Seq<(Seq<char>, JsonV)>, x: (Seq<char>, JsonV), k: Seq<char>)
    requires
        lookup(s, k) is Some || x.0 == k,
    ensures
        lookup(s.push(x), k) is Some,
{
    lemma_lookup_none(s, k);
    lemma_lookup_none(s.push(x), k);
    if lookup(s, k) is Some {
        let i = choose|i: int| 0 <= i < s.len() && #[trigger] s[i].0 == k;
        assert(s.push(x)[i].0 == k);
    } else {
        assert(s.push(x)[s.len() as int].0 == k);
    }
}

proof fn lemma_insert_missing_has(base: Seq<(Seq<char>, JsonV)>, extra: Seq<(Seq<char>, JsonV)>, k: Seq<char>)
    requires
        lookup(base, k) is Some || lookup(extra, k) is Some,
    ensures
        lookup(insert_missing_all(base, extra), k) is Some,
    decreases extra.len(),
{
    if extra.len() == 0 {
        lemma_lookup_none(extra, k);
    } else {
        let d = extra.drop_last();
        if lookup(extra, k) is Some {
            lemma_lookup_some_split(extra, k);
        }
        if lookup(base, k) is Some || lookup(d, k) is Some {
            lemma_insert_missing_has(base, d, k);
        }
        let b = insert_missing_all(base, d);
        if lookup(b, extra.last().0) is None {
            if lookup(b, k) is Some {
                lemma_lookup_push_some(b, extra.last(), k);
            } else {
                lemma_lookup_push_some(b, extra.last(), k);
            }
        }
    }
}

proof fn lemma_copy_missing_head(base: Seq<(Seq<char>, JsonV)>, node: Seq<(Seq<char>, JsonV)>, skip: Seq<char>)
    ensures
        copy_missing(base, node, skip).len() >= base.len(),
        forall|i: int| 0 <= i < base.len() ==> #[trigger] copy_missing(base, node, skip)[i] == base[i],
    decreases node.len(),
{
    if node.len() > 0 {
        lemma_copy_missing_head(base, node.drop_last(), skip);
    }
}

proof fn lemma_copy_missing_has(base: Seq<(Seq<char>, JsonV)>, node: Seq<(Seq<char>, JsonV)>, skip: Seq<char>, k: Seq<char>)
    requires
        lookup(base, k) is Some || (k != skip && lookup(node, k) is Some),
    ensures
        lookup(copy_missing(base, node, skip), k) is Some,
    decreases node.len(),
{
    if node.len() == 0 {
        lemma_lookup_none(node, k);
    } else {
        let d = node.drop_last();
        if lookup(node, k) is Some {
            lemma_lookup_some_split(node, k);
        }
        if lookup(base, k) is Some || (k != skip && lookup(d, k) is Some) {
            lemma_copy_missing_has(base, d, skip, k);
        }
        let b = copy_missing(base, d, skip);
        if node.last().0 != skip && lookup(b, node.last().0) is None {
            lemma_lookup_push_some(b, node.last(), k);
        }
    }
}

proof fn lemma_swap_remove_prefix(e: Seq<(Seq<char>, JsonV)>, k: Seq<char>, n: int)
    requires
        0 <= n <= e.len(),
        forall|i: int| 0 <= i < n ==> #[trigger] e[i].0 != k,
    ensures
        swap_remove_key(e, k).len() >= n,
        forall|i: int| 0 <= i < n ==> #[trigger] swap_remove_key(e, k)[i] == e[i],
{
    lemma_key_index(e, k);
}

proof fn lemma_swap_remove_has(e: Seq<(Seq<char>, JsonV)>, k: Seq<char>, j: Seq<char>)
    requires
        lookup(e, j) is Some,
        j != k,
    ensures
        lookup(swap_remove_key(e, k), j) is Some,
{
    let s = swap_remove_key(e, k);
    lemma_key_index(e, k);
    lemma_lookup_none(e, j);
    lemma_lookup_none(s, j);
    let i = choose|i: int| 0 <= i < e.len() && #[trigger] e[i].0 == j;
    match key_index(e, k) {
        Some(m) => {
            if i == e.len() - 1 {
                assert(s[m].0 == j);
            } else {
                assert(s[i].0 == j);
            }
        },
        None => {
            assert(s[i].0 == j);
        },
    }
}

proof fn lemma_push_missing_has(base: Seq<JsonV>, extra: Seq<JsonV>, x: JsonV)
    requires
        base.contains(x) || extra.contains(x),
    ensures
        push_missing_all(base, extra).contains(x),
    decreases extra.len(),
{
    if extra.len() > 0 {
        let d = extra.drop_last();
        if extra.contains(x) && x != extra.last() {
            let i = choose|i: int| 0 <= i < extra.len() && extra[i] == x;
            assert(d[i] == x);
        }
        if base.contains(x) || d.contains(x) {
            lemma_push_missing_has(base, d, x);
        }
        let b = push_missing_all(base, d);
        if !b.contains(extra.last()) {
            assert(b.push(extra.last())[b.len() as int] == extra.last());
            if b.contains(x) {
                let i = choose|i: int| 0 <= i < b.len() && b[i] == x;
                assert(b.push(extra.last())[i] == x);
            }
        }
    }
}

proof fn lemma_swap_remove_head(e: Seq<(Seq<char>, JsonV)>, k: Seq<char>)
    requires
        e.len() > 0,
        e[0].0 != k,
    ensures
        swap_remove_key(e, k).len() > 0,
        swap_remove_key(e, k)[0] == e[0],
{
    lemma_key_index(e, k);
}

proof fn lemma_allof_result_head(entries: Seq<(Seq<char>, JsonV)>, b: Seq<JsonV>)
    ensures
        allof_result(entries, b) matches JsonV::Object(e) && e.len() > 1 && e[0] == (
            "properties"@,
            JsonV::Object(
                match lookup(entries, "properties"@) {
                    Some(JsonV::Object(pp)) => insert_missing_all(union_props(b), pp),
                    _ => union_props(b),
                },
            ),
        ) && e[1] == (
            "required"@,
            JsonV::Array(
                match lookup(entries, "required"@) {
                    Some(JsonV::Array(pr)) => push_missing_all(concat_required(b), pr),
                    _ => concat_required(b),
                },
            ),
        ) && e == copy_missing(
            seq![(e[0].0, e[0].1), (e[1].0, e[1].1)],
            entries,
            "allOf"@,
        ),
{
    let props = match lookup(entries, "properties"@) {
        Some(JsonV::Object(pp)) => insert_missing_all(union_props(b), pp),
        _ => union_props(b),
    };
    let req = match lookup(entries, "required"@) {
        Some(JsonV::Array(pr)) => push_missing_all(concat_required(b), pr),
        _ => concat_required(b),
    };
    let base = seq![("properties"@, JsonV::Object(props)), ("required"@, JsonV::Array(req))];
    lemma_copy_missing_head(base, entries, "allOf"@);
    let e = copy_missing(base, entries, "allOf"@);
    assert(seq![(e[0].0, e[0].1), (e[1].0, e[1].1)] =~= base);
}

/// An `allOf` node keeps its own properties: every property the node itself
/// declares is among the properties of the resolved node (a branch's
/// declaration wins on a shared name, but none of the node's names is lost).
pub proof fn lemma_allof_keeps_parent_properties(entries: Seq<(Seq<char>, JsonV)>, max: nat, k: Seq<char>)
    requires
        lookup(entries, "$ref"@) is None,
        lookup(entries, "allOf"@) is Some,
        (lookup(entries, "properties"@) matches Some(JsonV::Object(pp)) && lookup(pp, k) is Some),
    ensures
        resolve_refs_spec(JsonV::Object(entries), max) matches Ok(r) ==> (r.get("properties"@) matches Some(
            JsonV::Object(props),
        ) && lookup(props, k) is Some),
{
    let node = JsonV::Object(entries);
    let defs = defs_of(node);
    let pp = match lookup(entries, "properties"@) {
        Some(JsonV::Object(pp)) => pp,
        _ => Seq::empty(),
    };
    let branches = match lookup(entries, "allOf"@).unwrap() {
        JsonV::Array(subs) => resolve_items(subs, defs, next_depth(0, max), max, Set::empty()),
        _ => Ok(Seq::empty()),
    };
    if let Ok(b) = branches {
        let props = insert_missing_all(union_props(b), pp);
        lemma_insert_missing_has(union_props(b), pp, k);
        lemma_allof_result_head(entries, b);
        let e = match allof_result(entries, b) {
            JsonV::Object(e) => e,
            _ => Seq::empty(),
        };
        assert(e[0] == ("properties"@, JsonV::Object(props)));
        assert(resolve_spec(node, defs, 0, max, Set::empty()) == Ok::<JsonV, RefErr>(JsonV::Object(e)));
        reveal_strlit("properties");
        reveal_strlit("$defs");
        reveal_strlit("definitions");
        assert("properties"@.len() == 10 && "$defs"@.len() == 5 && "definitions"@.len() == 11);
        assert(e[0].0 != "$defs"@);
        lemma_swap_remove_head(e, "$defs"@);
        let s1 = swap_remove_key(e, "$defs"@);
        assert(s1[0].0 != "definitions"@);
        lemma_swap_remove_head(s1, "definitions"@);
        let s2 = swap_remove_key(s1, "definitions"@);
        assert(lookup(s2, "properties"@) == Some(JsonV::Object(props)));
    }
}

/// An `allOf` node keeps the rest of what it declares: every item of its own
/// `required` list is still required after resolution, and every other
/// member it carries (anything but `allOf` and, at the top level, the
/// definition tables `$defs` / `definitions`) is still present.
pub proof fn lemma_allof_keeps_parent_members(entries: Seq<(Seq<char>, JsonV)>, max: nat, x: JsonV, k: Seq<char>)
    requires
        lookup(entries, "$ref"@) is None,
        lookup(entries, "allOf"@) is Some,
    ensures
        (lookup(entries, "required"@) matches Some(JsonV::Array(pr)) && pr.contains(x)) ==> (resolve_refs_spec(
            JsonV::Object(entries),
            max,
        ) matches Ok(r) ==> (r.get("required"@) matches Some(JsonV::Array(req)) && req.contains(x))),
        (lookup(entries, k) is Some && k != "allOf"@ && k != "$defs"@ && k != "definitions"@) ==> (
        resolve_refs_spec(JsonV::Object(entries), max) matches Ok(r) ==> r.get(k) is Some),
{
    let node = JsonV::Object(entries);
    let defs = defs_of(node);
    let branches = match lookup(entries, "allOf"@).unwrap() {
        JsonV::Array(subs) => resolve_items(subs, defs, next_depth(0, max), max, Set::empty()),
        _ => Ok(Seq::empty()),
    };
    if let Ok(b) = branches {
        lemma_allof_result_head(entries, b);
        let e = match allof_result(entries, b) {
            JsonV::Object(e) => e,
            _ => Seq::empty(),
        };
        assert(resolve_spec(node, defs, 0, max, Set::empty()) == Ok::<JsonV, RefErr>(JsonV::Object(e)));
        reveal_strlit("properties");
        reveal_strlit("required");
        reveal_strlit("$defs");
        reveal_strlit("definitions");
        assert("properties"@.len() == 10 && "required"@.len() == 8 && "$defs"@.len() == 5 && "definitions"@.len() == 11);
        let base = seq![(e[0].0, e[0].1), (e[1].0, e[1].1)];
        assert(base[0] == e[0] && base[1] == e[1]);
        lemma_swap_remove_prefix(e, "$defs"@, 2);
        let s1 = swap_remove_key(e, "$defs"@);
        lemma_swap_remove_prefix(s1, "definitions"@, 2);
        let s2 = swap_remove_key(s1, "definitions"@);
        assert(s2[0] == e[0] && s2[1] == e[1]);
        if lookup(entries, "required"@) matches Some(JsonV::Array(pr)) && pr.contains(x) {
            let pr = match lookup(entries, "required"@) {
                Some(JsonV::Array(pr)) => pr,
                _ => Seq::empty(),
            };
            lemma_push_missing_has(concat_required(b), pr, x);
            assert(s2.drop_first()[0] == s2[1]);
            assert(lookup(s2, "required"@) == lookup(s2.drop_first(), "required"@));
            assert(lookup(s2, "required"@) == Some(e[1].1));
        }
        if lookup(entries, k) is Some && k != "allOf"@ && k != "$defs"@ && k != "definitions"@ {
            lemma_copy_missing_has(base, entries, "allOf"@, k);
            lemma_swap_remove_has(e, "$defs"@, k);
            lemma_swap_remove_has(s1, "definitions"@, k);
        }
    }
}

/// An `anyOf` / `oneOf` node keeps what it declares besides its branches:
/// every member other than the composition keyword (and, at the top level,
/// the definition tables) is still present after resolution.
pub proof fn lemma_anyof_keeps_parent_members(entries: Seq<(Seq<char>, JsonV)>, max: nat, kw: Seq<char>, k: Seq<char>)
    requires
        lookup(entries, "$ref"@) is None,
        lookup(entries, "allOf"@) is None,
        (kw == "anyOf"@ && lookup(entries, "anyOf"@) is Some) || (kw == "oneOf"@ && lookup(entries, "anyOf"@) is None
            && lookup(entries, "oneOf"@) is Some),
        lookup(entries, k) is Some,
        k != kw,
        k != "$defs"@,
        k != "definitions"@,
    ensures
        resolve_refs_spec(JsonV::Object(entries), max) matches Ok(r) ==> r.get(k) is Some,
{
    let node = JsonV::Object(entries);
    let defs = defs_of(node);
    let branches = match lookup(entries, kw).unwrap() {
        JsonV::Array(subs) => resolve_items(subs, defs, next_depth(0, max), max, Set::empty()),
        _ => Ok(Seq::empty()),
    };
    if let Ok(b) = branches {
        let base = seq![
            ("properties"@, JsonV::Object(union_props(b))),
            ("required"@, JsonV::Array(common_required(b))),
        ];
        let e = copy_missing(base, entries, kw);
        assert(anyof_result(entries, b, kw) == JsonV::Object(e));
        assert(resolve_spec(node, defs, 0, max, Set::empty()) == Ok::<JsonV, RefErr>(JsonV::Object(e)));
        lemma_copy_missing_has(base, entries, kw, k);
        lemma_swap_remove_has(e, "$defs"@, k);
        lemma_swap_remove_has(swap_remove_key(e, "$defs"@), "definitions"@, k);
    }
}

proof fn lemma_lookup_push_other(d: Seq<(Seq<char>, JsonV)>, x: (Seq<char>, JsonV), k: Seq<char>)
    ensures
        x.0 != k ==> lookup(d.push(x), k) == lookup(d, k),
        lookup(d, k) is Some ==> lookup(d.push(x), k) == lookup(d, k),
{
    let s = d.push(x);
    lemma_key_index(s, k);
    lemma_key_index(d, k);
    match key_index(d, k) {
        Some(i) => {
            assert(s[i] == d[i]);
            match key_index(s, k) {
                Some(i2) => {
                    if i2 < i {
                        assert(d[i2] == s[i2]);
                    }
                    if i < i2 {
                        assert(s[i].0 == k);
                    }
                },
                None => {
                    assert(s[i].0 == k);
                },
            }
        },
        None => {
            if x.0 != k {
                match key_index(s, k) {
                    Some(i2) => {
                        if i2 < d.len() {
                            assert(d[i2] == s[i2]);
                        }
                    },
                    None => {},
                }
            }
        },
    }
}

proof fn lemma_insert_all_has(base: Seq<(Seq<char>, JsonV)>, extra: Seq<(Seq<char>, JsonV)>, k: Seq<char>)
    ensures
        lookup(insert_all(base, extra), k) is Some <==> (lookup(base, k) is Some || lookup(extra, k) is Some),
    decreases extra.len(),
{
    if extra.len() == 0 {
        lemma_lookup_none(extra, k);
    } else {
        let d = extra.drop_last();
        lemma_insert_all_has(base, d, k);
        crate::json::lemma_lookup_insert(insert_all(base, d), extra.last().0, extra.last().1, k);
        assert(extra == d.push(extra.last()));
        lemma_lookup_push_other(d, extra.last(), k);
        if extra.last().0 == k {
            lemma_lookup_push_some(d, extra.last(), k);
        }
    }
}

proof fn lemma_insert_all_last(base: Seq<(Seq<char>, JsonV)>, extra: Seq<(Seq<char>, JsonV)>, k: Seq<char>, v: JsonV)
    requires
        distinct_keys(extra),
        lookup(extra, k) == Some(v),
    ensures
        lookup(insert_all(base, extra), k) == Some(v),
    decreases extra.len(),
{
    let d = extra.drop_last();
    assert(extra.len() > 0);
    crate::json::lemma_lookup_insert(insert_all(base, d), extra.last().0, extra.last().1, k);
    assert(extra == d.push(extra.last()));
    lemma_lookup_push_other(d, extra.last(), k);
    if extra.last().0 == k {
        lemma_key_index(extra, k);
        let i = key_index(extra, k)->0;
        if i != extra.len() - 1 {
            assert(extra[i].0 != extra[extra.len() - 1].0);
        }
    } else {
        assert(distinct_keys(d)) by {
            assert forall|i: int, j: int| 0 <= i < j < d.len() implies #[trigger] d[i].0 != #[trigger] d[j].0 by {
                assert(d[i] == extra[i] && d[j] == extra[j]);
            }
        }
        lemma_insert_all_last(base, d, k, v);
    }
}

proof fn lemma_union_props_has(b: Seq<JsonV>, k: Seq<char>)
    ensures
        lookup(union_props(b), k) is Some <==> exists|j: int| 0 <= j < b.len() && lookup(props_of(#[trigger] b[j]), k) is Some,
    decreases b.len(),
{
    if b.len() == 0 {
        lemma_lookup_none(Seq::<(Seq<char>, JsonV)>::empty(), k);
    } else {
        let d = b.drop_last();
        lemma_union_props_has(d, k);
        lemma_insert_all_has(union_props(d), props_of(b.last()), k);
        if exists|j: int| 0 <= j < b.len() && lookup(props_of(#[trigger] b[j]), k) is Some {
            let j = choose|j: int| 0 <= j < b.len() && lookup(props_of(#[trigger] b[j]), k) is Some;
            if j < d.len() {
                assert(d[j] == b[j]);
            } else {
                assert(b[j] == b.last());
            }
        }
        if exists|j: int| 0 <= j < d.len() && lookup(props_of(#[trigger] d[j]), k) is Some {
            let j = choose|j: int| 0 <= j < d.len() && lookup(props_of(#[trigger] d[j]), k) is Some;
            assert(b[j] == d[j]);
        }
        if lookup(props_of(b.last()), k) is Some {
            assert(b[b.len() - 1] == b.last());
        }
    }
}

proof fn lemma_insert_missing_keeps(base: Seq<(Seq<char>, JsonV)>, extra: Seq<(Seq<char>, JsonV)>, k: Seq<char>)
    requires
        lookup(base, k) is Some,
    ensures
        lookup(insert_missing_all(base, extra), k) == lookup(base, k),
    decreases extra.len(),
{
    if extra.len() > 0 {
        let d = extra.drop_last();
        lemma_insert_missing_keeps(base, d, k);
        let b = insert_missing_all(base, d);
        lemma_lookup_push_other(b, extra.last(), k);
    }
}

proof fn lemma_insert_missing_only(base: Seq<(Seq<char>, JsonV)>, extra: Seq<(Seq<char>, JsonV)>, k: Seq<char>)
    requires
        lookup(insert_missing_all(base, extra), k) is Some,
    ensures
        lookup(base, k) is Some || lookup(extra, k) is Some,
    decreases extra.len(),
{
    if extra.len() > 0 {
        let d = extra.drop_last();
        let b = insert_missing_all(base, d);
        assert(extra == d.push(extra.last()));
        if lookup(b, extra.last().0) is None {
            lemma_lookup_push_other(b, extra.last(), k);
            if extra.last().0 == k {
                lemma_lookup_push_some(d, extra.last(), k);
            } else {
                lemma_insert_missing_only(base, d, k);
                lemma_lookup_push_other(d, extra.last(), k);
            }
        } else {
            lemma_insert_missing_only(base, d, k);
            lemma_lookup_push_other(d, extra.last(), k);
        }
    }
}

/// What an `allOf` merge does with properties: the merged `properties` hold
/// exactly the names that some branch or the node itself declares, and a
/// name the last branch declares carries that branch's schema (later
/// branches win; the node's own declarations only fill gaps).
pub proof fn lemma_allof_merge_properties(entries: Seq<(Seq<char>, JsonV)>, b: Seq<JsonV>, k: Seq<char>)
    ensures
        allof_result(entries, b).get("properties"@) matches Some(JsonV::Object(props)) && (lookup(props, k) is Some
            <==> ((exists|j: int| 0 <= j < b.len() && lookup(props_of(#[trigger] b[j]), k) is Some) || (lookup(
            entries,
            "properties"@,
        ) matches Some(JsonV::Object(pp)) && lookup(pp, k) is Some))),
        (b.len() > 0 && distinct_keys(props_of(b.last())) && lookup(props_of(b.last()), k) is Some) ==> (allof_result(
            entries,
            b,
        ).get("properties"@) matches Some(JsonV::Object(props)) && lookup(props, k) == lookup(props_of(b.last()), k)),
{
    lemma_allof_result_head(entries, b);
    let e = match allof_result(entries, b) {
        JsonV::Object(e) => e,
        _ => Seq::empty(),
    };
    assert(lookup(e, "properties"@) == Some(e[0].1));
    let u = union_props(b);
    lemma_union_props_has(b, k);
    if let Some(JsonV::Object(pp)) = lookup(entries, "properties"@) {
        if lookup(u, k) is Some || lookup(pp, k) is Some {
            lemma_insert_missing_has(u, pp, k);
        }
        if lookup(insert_missing_all(u, pp), k) is Some {
            lemma_insert_missing_only(u, pp, k);
        }
        if lookup(u, k) is Some {
            lemma_insert_missing_keeps(u, pp, k);
        }
    }
    if b.len() > 0 && distinct_keys(props_of(b.last())) && lookup(props_of(b.last()), k) is Some {
        lemma_insert_all_last(union_props(b.drop_last()), props_of(b.last()), k, lookup(props_of(b.last()), k)->0);
    }
}

/// What an `anyOf` / `oneOf` merge does with properties: the merged
/// `properties` hold exactly the names some branch declares, and a name the
/// last branch declares carries that branch's schema.
pub proof fn lemma_anyof_merge_properties(entries: Seq<(Seq<char>, JsonV)>, b: Seq<JsonV>, kw: Seq<char>, k: Seq<char>)
    ensures
        anyof_result(entries, b, kw).get("properties"@) matches Some(JsonV::Object(props)) && (lookup(props, k) is Some
            <==> exists|j: int| 0 <= j < b.len() && lookup(props_of(#[trigger] b[j]), k) is Some),
        (b.len() > 0 && distinct_keys(props_of(b.last())) && lookup(props_of(b.last()), k) is Some) ==> (anyof_result(
            entries,
            b,
            kw,
        ).get("properties"@) matches Some(JsonV::Object(props)) && lookup(props, k) == lookup(props_of(b.last()), k)),
{
    let base = seq![
        ("properties"@, JsonV::Object(union_props(b))),
        ("required"@, JsonV::Array(common_required(b))),
    ];
    lemma_copy_missing_head(base, entries, kw);
    let e = copy_missing(base, entries, kw);
    assert(e[0] == base[0]);
    assert(lookup(e, "properties"@) == Some(e[0].1));
    lemma_union_props_has(b, k);
    if b.len() > 0 && distinct_keys(props_of(b.last())) && lookup(props_of(b.last()), k) is Some {
        lemma_insert_all_last(union_props(b.drop_last()), props_of(b.last()), k, lookup(props_of(b.last()), k)->0);
    }
}

proof fn lemma_concat_required_has(b: Seq<JsonV>, x: JsonV)
    ensures
        concat_required(b).contains(x) <==> exists|j: int| 0 <= j < b.len() && required_of(#[trigger] b[j]).contains(x),
    decreases b.len(),
{
    if b.len() > 0 {
        let d = b.drop_last();
        lemma_concat_required_has(d, x);
        let c = concat_required(d);
        let r = required_of(b.last());
        let t = c + r;
        if t.contains(x) {
            let i = choose|i: int| 0 <= i < t.len() && t[i] == x;
            if i < c.len() {
                assert(c[i] == x);
                let j = choose|j: int| 0 <= j < d.len() && required_of(#[trigger] d[j]).contains(x);
                assert(b[j] == d[j]);
            } else {
                assert(r[i - c.len()] == x);
                assert(b[b.len() - 1] == b.last());
            }
        }
        if exists|j: int| 0 <= j < b.len() && required_of(#[trigger] b[j]).contains(x) {
            let j = choose|j: int| 0 <= j < b.len() && required_of(#[trigger] b[j]).contains(x);
            if j < d.len() {
                assert(d[j] == b[j]);
                let i = choose|i: int| 0 <= i < c.len() && c[i] == x;
                assert(t[i] == x);
            } else {
                assert(b[j] == b.last());
                let i = choose|i: int| 0 <= i < r.len() && r[i] == x;
                assert(t[c.len() + i] == x);
            }
        }
    }
}

proof fn lemma_push_missing_only(base: Seq<JsonV>, extra: Seq<JsonV>, x: JsonV)
    requires
        push_missing_all(base, extra).contains(x),
    ensures
        base.contains(x) || extra.contains(x),
    decreases extra.len(),
{
    if extra.len() > 0 {
        let d = extra.drop_last();
        let b = push_missing_all(base, d);
        if !b.contains(extra.last()) && x != extra.last() {
            let i = choose|i: int| 0 <= i < b.push(extra.last()).len() && b.push(extra.last())[i] == x;
            assert(b[i] == x);
        }
        if x == extra.last() {
            assert(extra[extra.len() - 1] == x);
        } else {
            lemma_push_missing_only(base, d, x);
            if d.contains(x) {
                let i = choose|i: int| 0 <= i < d.len() && d[i] == x;
                assert(extra[i] == x);
            }
        }
    }
}

/// What an `allOf` merge does with `required`: the merged list holds exactly
/// the items some branch requires or the node itself requires (branch lists
/// concatenated, the node's own items added when missing).
pub proof fn lemma_allof_merge_required(entries: Seq<(Seq<char>, JsonV)>, b: Seq<JsonV>, x: JsonV)
    ensures
        allof_result(entries, b).get("required"@) matches Some(JsonV::Array(req)) && (req.contains(x) <==> ((exists|j: int|
            0 <= j < b.len() && required_of(#[trigger] b[j]).contains(x)) || (lookup(entries, "required"@) matches Some(
            JsonV::Array(pr),
        ) && pr.contains(x)))),
{
    lemma_allof_result_head(entries, b);
    let e = match allof_result(entries, b) {
        JsonV::Object(e) => e,
        _ => Seq::empty(),
    };
    reveal_strlit("properties");
    reveal_strlit("required");
    assert("properties"@.len() == 10 && "required"@.len() == 8);
    assert(e.drop_first()[0] == e[1]);
    assert(lookup(e, "required"@) == lookup(e.drop_first(), "required"@));
    assert(lookup(e, "required"@) == Some(e[1].1));
    lemma_concat_required_has(b, x);
    if let Some(JsonV::Array(pr)) = lookup(entries, "required"@) {
        let c = concat_required(b);
        if push_missing_all(c, pr).contains(x) {
            lemma_push_missing_only(c, pr, x);
        }
        if c.contains(x) || pr.contains(x) {
            lemma_push_missing_has(c, pr, x);
        }
    }
}

proof fn lemma_common_names_has(first: Seq<Seq<char>>, b: Seq<JsonV>, x: Seq<char>)
    ensures
        common_names(first, b).contains(x) <==> (first.contains(x) && required_by_rest(b, x)),
    decreases first.len(),
{
    if first.len() > 0 {
        let d = first.drop_last();
        lemma_common_names_has(d, b, x);
        let acc = common_names(d, b);
        let y = first.last();
        if required_by_rest(b, y) && !acc.contains(y) {
            let t = acc.push(y);
            if t.contains(x) && x != y {
                let i = choose|i: int| 0 <= i < t.len() && t[i] == x;
                assert(acc[i] == x);
            }
            if acc.contains(x) {
                let i = choose|i: int| 0 <= i < acc.len() && acc[i] == x;
                assert(t[i] == x);
            }
            assert(t[acc.len() as int] == y);
        }
        if d.contains(x) {
            let i = choose|i: int| 0 <= i < d.len() && d[i] == x;
            assert(first[i] == x);
        }
        if first.contains(x) && x != y {
            let i = choose|i: int| 0 <= i < first.len() && first[i] == x;
            assert(d[i] == x);
        }
        assert(first[first.len() - 1] == y);
    }
}

/// What an `anyOf` / `oneOf` merge does with `required`: the merged list
/// holds only strings, and a name is in it exactly when every branch
/// requires it (no branches: nothing is required).
pub proof fn lemma_anyof_merge_required(entries: Seq<(Seq<char>, JsonV)>, b: Seq<JsonV>, kw: Seq<char>, x: Seq<char>)
    ensures
        anyof_result(entries, b, kw).get("required"@) matches Some(JsonV::Array(req)) && (forall|i: int|
            0 <= i < req.len() ==> #[trigger] req[i] is Str) && (req.contains(JsonV::Str(x)) <==> (b.len() > 0
            && forall|j: int| 0 <= j < b.len() ==> str_items(required_of(#[trigger] b[j])).contains(x))),
{
    let base = seq![
        ("properties"@, JsonV::Object(union_props(b))),
        ("required"@, JsonV::Array(common_required(b))),
    ];
    lemma_copy_missing_head(base, entries, kw);
    let e = copy_missing(base, entries, kw);
    assert(e[0] == base[0] && e[1] == base[1]);
    reveal_strlit("properties");
    reveal_strlit("required");
    assert("properties"@.len() == 10 && "required"@.len() == 8);
    assert(e.drop_first()[0] == e[1]);
    assert(lookup(e, "required"@) == lookup(e.drop_first(), "required"@));
    let req = common_required(b);
    assert(lookup(e, "required"@) == Some(JsonV::Array(req)));
    if b.len() > 0 {
        let first = str_items(required_of(b[0]));
        let names = common_names(first, b);
        lemma_common_names_has(first, b, x);
        assert(req == names.map_values(|s: Seq<char>| JsonV::Str(s)));
        if req.contains(JsonV::Str(x)) {
            let i = choose|i: int| 0 <= i < req.len() && req[i] == JsonV::Str(x);
            assert(names[i] == x);
            assert(names.contains(x));
            assert forall|j: int| 0 <= j < b.len() implies str_items(required_of(#[trigger] b[j])).contains(x) by {
                if j > 0 {
                    assert(required_by_rest(b, x));
                }
            }
        }
        if forall|j: int| 0 <= j < b.len() ==> str_items(required_of(#[trigger] b[j])).contains(x) {
            assert(str_items(required_of(b[0])).contains(x));
            assert(names.contains(x));
            let i = choose|i: int| 0 <= i < names.len() && names[i] == x;
            assert(req[i] == JsonV::Str(x));
        }
    } else {
        assert(req.len() == 0);
    }
}

/// Reference chains are bounded and cycles are caught: a top-level `$ref`
/// with a depth limit of 0 exceeds the limit, and a `$ref` whose definition
/// refers to that same path again is circular whenever the limit allows
/// following it twice.
pub proof fn lemma_ref_limits(entries: Seq<(Seq<char>, JsonV)>, max: nat, p: Seq<char>, def: JsonV)
    requires
        lookup(entries, "$ref"@) == Some(JsonV::Str(p)),
    ensures
        max == 0 ==> resolve_refs_spec(JsonV::Object(entries), max) == Err::<JsonV, RefErr>(RefErr::MaxDepth),
        (max >= 2 && lookup(defs_of(JsonV::Object(entries)), ref_key(p)) == Some(def) && (def matches JsonV::Object(de)
            && lookup(de, "$ref"@) == Some(JsonV::Str(p)))) ==> resolve_refs_spec(JsonV::Object(entries), max) == Err::<
            JsonV,
            RefErr,
        >(RefErr::Circular),
{
    let node = JsonV::Object(entries);
    let defs = defs_of(node);
    if max >= 2 && lookup(defs, ref_key(p)) == Some(def) && (def matches JsonV::Object(de) && lookup(de, "$ref"@)
        == Some(JsonV::Str(p))) {
        let vis = Set::<Seq<char>>::empty().insert(p);
        assert(vis.contains(p));
        assert(resolve_spec(def, defs, 1, max, vis) == Err::<JsonV, RefErr>(RefErr::Circular));
    }
}

// ---------------------------------------------------------------------------
// Merge helpers
// ---------------------------------------------------------------------------

/// The `properties` entries of a branch, when it has an object there.
fn props_ref(b: &Json) -> (r: Option<&Vec<(String, Json)>>)
    ensures
        match r {
            Some(o) => props_of(b@) == entries_view(o@),
            None => props_of(b@) == Seq::<(Seq<char>, JsonV)>::empty(),
        },
{
    match b.get("properties") {
        Some(p) => p.as_object(),
        None => None,
    }
}

/// The `required` items of a branch, when it has an array there.
fn required_ref(b: &Json) -> (r: Option<&Vec<Json>>)
    ensures
        match r {
            Some(a) => required_of(b@) == json_seq_view(a@),
            None => required_of(b@) == Seq::<JsonV>::empty(),
        },
{
    match b.get("required") {
        Some(p) => p.as_array(),
        None => None,
    }
}

fn insert_all_exec(base: &mut Vec<(String, Json)>, extra: &Vec<(String, Json)>)
    ensures
        entries_view(final(base)@) == insert_all(entries_view(old(base)@), entries_view(extra@)),
{
    let ghost ev = entries_view(extra@);
    let ghost b0 = entries_view(base@);
    let mut i: usize = 0;
    while i < extra.len()
        invariant
            0 <= i <= extra.len(),
            ev == entries_view(extra@),
            entries_view(base@) == insert_all(b0, ev.take(i as int)),
        decreases extra.len() - i,
    {
        let k = extra[i].0.clone();
        let v = extra[i].1.dup();
        entries_set(base, k, v);
        proof {
            assert(ev.take(i + 1).drop_last() == ev.take(i as int));
        }
        i = i + 1;
    }
    assert(ev.take(extra.len() as int) == ev);
}

/// `union_props` of the branches.
fn union_props_exec(branches: &Vec<Json>) -> (r: Vec<(String, Json)>)
    ensures
        entries_view(r@) == union_props(json_seq_view(branches@)),
{
    let ghost bv = json_seq_view(branches@);
    let mut out: Vec<(String, Json)> = Vec::new();
    let mut i: usize = 0;
    while i < branches.len()
        invariant
            0 <= i <= branches.len(),
            bv == json_seq_view(branches@),
            entries_view(out@) == union_props(bv.take(i as int)),
        decreases branches.len() - i,
    {
        match props_ref(&branches[i]) {
            Some(p) => insert_all_exec(&mut out, p),
            None => {},
        }
        proof {
            let t = bv.take(i + 1);
            assert(t.drop_last() == bv.take(i as int));
            assert(t.last() == branches@[i as int]@);
        }
        i = i + 1;
    }
    assert(bv.take(branches.len() as int) == bv);
    out
}

/// `concat_required` of the branches.
fn concat_required_exec(branches: &Vec<Json>) -> (r: Vec<Json>)
    ensures
        json_seq_view(r@) == concat_required(json_seq_view(branches@)),
{
    let ghost bv = json_seq_view(branches@);
    let mut out: Vec<Json> = Vec::new();
    let mut i: usize = 0;
    while i < branches.len()
        invariant
            0 <= i <= branches.len(),
            bv == json_seq_view(branches@),
            json_seq_view(out@) == concat_required(bv.take(i as int)),
        decreases branches.len() - i,
    {
        let ghost before = json_seq_view(out@);
        match required_ref(&branches[i]) {
            Some(req) => {
                let mut j: usize = 0;
                while j < req.len()
                    invariant
                        0 <= j <= req.len(),
                        json_seq_view(out@) == before + json_seq_view(req@).take(j as int),
                    decreases req.len() - j,
                {
                    let c = req[j].dup();
                    let ghost prev = out@;
                    out.push(c);
                    assert(json_seq_view(out@) =~= json_seq_view(prev).push(c@));
                    j = j + 1;
                    assert(json_seq_view(out@) =~= before + json_seq_view(req@).take(j as int));
                }
                assert(json_seq_view(req@).take(req.len() as int) == json_seq_view(req@));
            },
            None => {
                assert(before + Seq::<JsonV>::empty() == before);
            },
        }
        proof {
            let t = bv.take(i + 1);
            assert(t.drop_last() == bv.take(i as int));
            assert(t.last() == branches@[i as int]@);
        }
        i = i + 1;
    }
    assert(bv.take(branches.len() as int) == bv);
    out
}

fn insert_missing_all_exec(base: &mut Vec<(String, Json)>, extra: &Vec<(String, Json)>)
    ensures
        entries_view(final(base)@) == insert_missing_all(
            entries_view(old(base)@),
            entries_view(extra@),
        ),
{
    let ghost ev = entries_view(extra@);
    let ghost b0 = entries_view(base@);
    let mut i: usize = 0;
    while i < extra.len()
        invariant
            0 <= i <= extra.len(),
            ev == entries_view(extra@),
            entries_view(base@) == insert_missing_all(b0, ev.take(i as int)),
        decreases extra.len() - i,
    {
        proof {
            assert(ev.take(i + 1).drop_last() == ev.take(i as int));
        }
        if !has_key(base, extra[i].0.as_str()) {
            let k = extra[i].0.clone();
            let v = extra[i].1.dup();
            let ghost prev = base@;
            base.push((k, v));
            assert(entries_view(base@) =~= entries_view(prev).push((k@, v@)));
        }
        i = i + 1;
    }
    assert(ev.take(extra.len() as int) == ev);
}

fn push_missing_all_exec(base: &mut Vec<Json>, extra: &Vec<Json>)
    ensures
        json_seq_view(final(base)@) == push_missing_all(
            json_seq_view(old(base)@),
            json_seq_view(extra@),
        ),
{
    let ghost ev = json_seq_view(extra@);
    let ghost b0 = json_seq_view(base@);
    let mut i: usize = 0;
    while i < extra.len()
        invariant
            0 <= i <= extra.len(),
            ev == json_seq_view(extra@),
            json_seq_view(base@) == push_missing_all(b0, ev.take(i as int)),
        decreases extra.len() - i,
    {
        proof {
            assert(ev.take(i + 1).drop_last() == ev.take(i as int));
        }
        if !json_contains(base, &extra[i]) {
            let v = extra[i].dup();
            let ghost prev = base@;
            base.push(v);
            assert(json_seq_view(base@) =~= json_seq_view(prev).push(v@));
        }
        i = i + 1;
    }
    assert(ev.take(extra.len() as int) == ev);
}

fn copy_missing_exec(base: &mut Vec<(String, Json)>, node: &Vec<(String, Json)>, skip: &str)
    ensures
        entries_view(final(base)@) == copy_missing(
            entries_view(old(base)@),
            entries_view(node@),
            skip@,
        ),
{
    let ghost nv = entries_view(node@);
    let ghost b0 = entries_view(base@);
    let mut i: usize = 0;
    while i < node.len()
        invariant
            0 <= i <= node.len(),
            nv == entries_view(node@),
            entries_view(base@) == copy_missing(b0, nv.take(i as int), skip@),
        decreases node.len() - i,
    {
        proof {
            assert(nv.take(i + 1).drop_last() == nv.take(i as int));
        }
        if !str_eq(node[i].0.as_str(), skip) && !has_key(base, node[i].0.as_str()) {
            let k = node[i].0.clone();
            let v = node[i].1.dup();
            let ghost prev = base@;
            base.push((k, v));
            assert(entries_view(base@) =~= entries_view(prev).push((k@, v@)));
        }
        i = i + 1;
    }
    assert(nv.take(node.len() as int) == nv);
}

/// The string items of an array.
fn str_items_exec(a: &Vec<Json>) -> (r: Vec<String>)
    ensures
        r@.map_values(|s: String| s@) == str_items(json_seq_view(a@)),
{
    let ghost av = json_seq_view(a@);
    let mut out: Vec<String> = Vec::new();
    let mut i: usize = 0;
    while i < a.len()
        invariant
            0 <= i <= a.len(),
            av == json_seq_view(a@),
            out@.map_values(|s: String| s@) == str_items(av.take(i as int)),
        decreases a.len() - i,
    {
        proof {
            let t = av.take(i + 1);
            assert(t.drop_last() == av.take(i as int));
            assert(t.last() == a@[i as int]@);
        }
        match a[i].as_str() {
            Some(s) => {
                let ghost prev = out@;
                out.push(s.clone());
                assert(out@.map_values(|s: String| s@) =~= prev.map_values(|s: String| s@).push(
                    s@,
                ));
            },
            None => {},
        }
        i = i + 1;
    }
    assert(av.take(a.len() as int) == av);
    out
}

/// The string items of an array, in order.
pub fn str_items_pub(a: &Vec<Json>) -> (r: Vec<String>)
    ensures
        r@.map_values(|s: String| s@) == str_items(json_seq_view(a@)),
{
    str_items_exec(a)
}

fn required_names(b: &Json) -> (r: Vec<String>)
    ensures
        r@.map_values(|s: String| s@) == str_items(required_of(b@)),
{
    match required_ref(b) {
        Some(a) => str_items_exec(a),
        None => {
            let v: Vec<String> = Vec::new();
            assert(v@.map_values(|s: String| s@) =~= Seq::<Seq<char>>::empty());
            v
        },
    }
}

/// Whether every branch after the first requires `x`.
fn required_by_rest_exec(branches: &Vec<Json>, x: &str) -> (r: bool)
    ensures
        r == required_by_rest(json_seq_view(branches@), x@),
{
    let ghost bv = json_seq_view(branches@);
    let mut j: usize = 1;
    while j < branches.len()
        invariant
            1 <= j,
            j <= branches.len() || branches.len() == 0,
            bv == json_seq_view(branches@),
            forall|k: int| 1 <= k < j && k < bv.len() ==> str_items(required_of(bv[k])).contains(x@),
        decreases branches.len() - j,
    {
        let names = required_names(&branches[j]);
        if !string_in(x, &names) {
            proof {
                let ns = names@.map_values(|s: String| s@);
                if ns.contains(x@) {
                    let m = choose|m: int| 0 <= m < ns.len() && ns[m] == x@;
                    assert(names@[m]@ == x@);
                }
                assert(bv[j as int] == branches@[j as int]@);
                assert(!str_items(required_of(bv[j as int])).contains(x@));
            }
            return false;
        }
        proof {
            let ns = names@.map_values(|s: String| s@);
            let m = choose|m: int| 0 <= m < names@.len() && names@[m]@ == x@;
            assert(ns[m] == x@);
        }
        j = j + 1;
    }
    true
}

/// `common_required` of the branches.
fn common_required_exec(branches: &Vec<Json>) -> (r: Vec<Json>)
    ensures
        json_seq_view(r@) == common_required(json_seq_view(branches@)),
{
    let ghost bv = json_seq_view(branches@);
    let mut out: Vec<Json> = Vec::new();
    if branches.len() == 0 {
        assert(json_seq_view(out@) =~= Seq::<JsonV>::empty());
        return out;
    }
    let first = required_names(&branches[0]);
    let ghost fv = first@.map_values(|s: String| s@);
    let mut acc: Vec<String> = Vec::new();
    let mut i: usize = 0;
    while i < first.len()
        invariant
            0 <= i <= first.len(),
            bv == json_seq_view(branches@),
            fv == first@.map_values(|s: String| s@),
            acc@.map_values(|s: String| s@) == common_names(fv.take(i as int), bv),
        decreases first.len() - i,
    {
        proof {
            assert(fv.take(i + 1).drop_last() == fv.take(i as int));
        }
        let keep = required_by_rest_exec(branches, first[i].as_str());
        let seen = string_in(first[i].as_str(), &acc);
        proof {
            let av = acc@.map_values(|s: String| s@);
            if seen {
                let m = choose|m: int| 0 <= m < acc@.len() && acc@[m]@ == first@[i as int]@;
                assert(av[m] == fv[i as int]);
            } else {
                assert forall|m: int| 0 <= m < av.len() implies av[m] != fv[i as int] by {
                    assert(av[m] == acc@[m]@);
                }
            }
        }
        if keep && !seen {
            let ghost prev = acc@;
            acc.push(first[i].clone());
            assert(acc@.map_values(|s: String| s@) =~= prev.map_values(|s: String| s@).push(
                fv[i as int],
            ));
        }
        i = i + 1;
    }
    assert(fv.take(first.len() as int) == fv);
    let ghost names = acc@.map_values(|s: String| s@);
    let mut k: usize = 0;
    while k < acc.len()
        invariant
            0 <= k <= acc.len(),
            names == acc@.map_values(|s: String| s@),
            json_seq_view(out@) == names.take(k as int).map_values(|s: Seq<char>| JsonV::Str(s)),
        decreases acc.len() - k,
    {
        let v = Json::Str(acc[k].clone());
        let ghost prev = out@;
        out.push(v);
        assert(json_seq_view(out@) =~= json_seq_view(prev).push(JsonV::Str(names[k as int])));
        k = k + 1;
        assert(json_seq_view(out@) =~= names.take(k as int).map_values(
            |s: Seq<char>| JsonV::Str(s),
        ));
    }
    assert(names.take(acc.len() as int) == names);
    out
}

// ---------------------------------------------------------------------------
// Resolution
// ---------------------------------------------------------------------------

/// The set of `$ref` paths held by the chain stack.
pub open spec fn vis_set(v: Seq<String>) -> Set<Seq<char>> {
    Set::new(|s: Seq<char>| exists|i: int| 0 <= i < v.len() && v[i]@ == s)
}

proof fn lemma_vis_push(v: Seq<String>, p: String)
    ensures
        vis_set(v.push(p)) == vis_set(v).insert(p@),
{
    let a = vis_set(v.push(p));
    let b = vis_set(v).insert(p@);
    assert forall|s: Seq<char>| a.contains(s) <==> b.contains(s) by {
        if a.contains(s) {
            let i = choose|i: int| 0 <= i < v.push(p).len() && v.push(p)[i]@ == s;
            if i < v.len() {
                assert(v[i]@ == s);
            }
        }
        if b.contains(s) {
            if s == p@ {
                assert(v.push(p)[v.len() as int]@ == s);
            } else {
                let i = choose|i: int| 0 <= i < v.len() && v[i]@ == s;
                assert(v.push(p)[i]@ == s);
            }
        }
    }
    assert(a =~= b);
}

proof fn lemma_items_err_extends(
    s: Seq<JsonV>,
    n: int,
    defs: Seq<(Seq<char>, JsonV)>,
    d: nat,
    m: nat,
    vis: Set<Seq<char>>,
)
    requires
        0 <= n <= s.len(),
        resolve_items(s.take(n), defs, d, m, vis) is Err,
    ensures
        resolve_items(s, defs, d, m, vis) == resolve_items(s.take(n), defs, d, m, vis),
    decreases s.len() - n,
{
    if n < s.len() {
        assert(s.take(n + 1).drop_last() == s.take(n));
        lemma_items_err_extends(s, n + 1, defs, d, m, vis);
    } else {
        assert(s.take(n) == s);
    }
}

proof fn lemma_entries_err_extends(
    s: Seq<(Seq<char>, JsonV)>,
    n: int,
    defs: Seq<(Seq<char>, JsonV)>,
    d: nat,
    m: nat,
    vis: Set<Seq<char>>,
)
    requires
        0 <= n <= s.len(),
        resolve_entries(s.take(n), defs, d, m, vis) is Err,
    ensures
        resolve_entries(s, defs, d, m, vis) == resolve_entries(s.take(n), defs, d, m, vis),
    decreases s.len() - n,
{
    if n < s.len() {
        assert(s.take(n + 1).drop_last() == s.take(n));
        lemma_entries_err_extends(s, n + 1, defs, d, m, vis);
    } else {
        assert(s.take(n) == s);
    }
}

/// The definition name of a `$ref` path.
fn ref_key_exec(path: &str) -> (r: String)
    ensures
        r@ == ref_key(path@),
{
    let cs = chars_of(path);
    let pieces = split_chars(&cs, '/');
    proof {
        assert(views_of(pieces@).len() == split_seq(path@, '/').len());
        crate::text::lemma_split_nonempty(path@, '/');
    }
    let last = &pieces[pieces.len() - 1];
    let r = string_from_chars(last);
    proof {
        assert(views_of(pieces@)[pieces.len() - 1] == last@);
    }
    r
}

fn resolve_list(
    items: Vec<Json>,
    defs: &Vec<(String, Json)>,
    depth: usize,
    max_depth: usize,
    visiting: &mut Vec<String>,
    module_id: &str,
) -> (r: Result<Vec<Json>, RefResolverError>)
    ensures
        match r {
            Ok(v) => resolve_items(
                json_seq_view(items@),
                entries_view(defs@),
                depth as nat,
                max_depth as nat,
                vis_set(old(visiting)@),
            ) == Ok::<Seq<JsonV>, RefErr>(json_seq_view(v@)) && final(visiting)@ == old(visiting)@,
            Err(e) => resolve_items(
                json_seq_view(items@),
                entries_view(defs@),
                depth as nat,
                max_depth as nat,
                vis_set(old(visiting)@),
            ) == Err::<Seq<JsonV>, RefErr>(e.kind()) && e.for_module(module_id@, max_depth as nat),
        },
    decreases ref_budget(depth as nat, max_depth as nat), items,
{
    let ghost orig = items@;
    let ghost ov = json_seq_view(orig);
    let ghost dv = entries_view(defs@);
    let ghost vis0 = visiting@;
    let mut rest = items;
    let ghost n = rest.len();
    let mut out: Vec<Json> = Vec::new();
    proof {
        assert forall|j: int| 0 <= j < orig.len() implies decreases_to!(items => orig[j]) by {
            assert(decreases_to!(items => items@));
            assert(decreases_to!(items@ => items@[j]));
        }
        assert(orig.skip(0) == orig);
        assert(ov.take(0) =~= Seq::<JsonV>::empty());
        assert(json_seq_view(out@) =~= Seq::<JsonV>::empty());
    }
    let mut k: usize = 0;
    while rest.len() > 0
        invariant
            0 <= k <= orig.len(),
            rest@ == orig.skip(k as int),
            rest@.len() == orig.len() - k,
            orig.len() == n,
            n <= usize::MAX,
            orig == items@,
            ov == json_seq_view(orig),
            dv == entries_view(defs@),
            visiting@ == vis0,
            vis0 == old(visiting)@,
            resolve_items(ov.take(k as int), dv, depth as nat, max_depth as nat, vis_set(vis0))
                == Ok::<Seq<JsonV>, RefErr>(json_seq_view(out@)),
            forall|j: int| 0 <= j < orig.len() ==> decreases_to!(items => orig[j]),
        decreases rest.len(),
    {
        let x = rest.remove(0);
        assert(x == orig[k as int]);
        assert(rest@ == orig.skip(k + 1));
        let ghost xv = x@;
        let res = resolve_node(x, defs, depth, max_depth, visiting, module_id);
        proof {
            assert(ov.take(k + 1).drop_last() == ov.take(k as int));
            assert(ov.take(k + 1).last() == xv);
        }
        match res {
            Ok(v) => {
                let ghost prev = out@;
                out.push(v);
                assert(json_seq_view(out@) =~= json_seq_view(prev).push(v@));
            },
            Err(e) => {
                proof {
                    assert(resolve_spec(xv, dv, depth as nat, max_depth as nat, vis_set(vis0)) == Err::<JsonV, RefErr>(e.kind()));
                    assert(resolve_items(ov.take(k + 1), dv, depth as nat, max_depth as nat, vis_set(vis0)) == Err::<Seq<JsonV>, RefErr>(e.kind()));
                    lemma_items_err_extends(ov, k + 1, dv, depth as nat, max_depth as nat, vis_set(vis0));
                    assert(ov == json_seq_view(items@));
                }
                return Err(e);
            },
        }
        k = k + 1;
    }
    assert(k == orig.len()) by {
        assert(orig.skip(k as int).len() == 0);
    }
    assert(ov.take(k as int) == ov);
    Ok(out)
}

fn resolve_members(
    entries: Vec<(String, Json)>,
    defs: &Vec<(String, Json)>,
    depth: usize,
    max_depth: usize,
    visiting: &mut Vec<String>,
    module_id: &str,
) -> (r: Result<Vec<(String, Json)>, RefResolverError>)
    ensures
        match r {
            Ok(v) => resolve_entries(
                entries_view(entries@),
                entries_view(defs@),
                depth as nat,
                max_depth as nat,
                vis_set(old(visiting)@),
            ) == Ok::<Seq<(Seq<char>, JsonV)>, RefErr>(entries_view(v@)) && final(visiting)@ == old(
                visiting,
            )@,
            Err(e) => resolve_entries(
                entries_view(entries@),
                entries_view(defs@),
                depth as nat,
                max_depth as nat,
                vis_set(old(visiting)@),
            ) == Err::<Seq<(Seq<char>, JsonV)>, RefErr>(e.kind()) && e.for_module(module_id@, max_depth as nat),
        },
    decreases ref_budget(depth as nat, max_depth as nat), entries,
{
    let ghost orig = entries@;
    let ghost ov = entries_view(orig);
    let ghost dv = entries_view(defs@);
    let ghost vis0 = visiting@;
    let mut rest = entries;
    let ghost n = rest.len();
    let mut out: Vec<(String, Json)> = Vec::new();
    proof {
        assert forall|j: int| 0 <= j < orig.len() implies decreases_to!(entries => orig[j].1) by {
            assert(decreases_to!(entries => entries@));
            assert(decreases_to!(entries@ => entries@[j]));
            assert(decreases_to!(entries@[j] => entries@[j].1));
        }
        assert(orig.skip(0) == orig);
        assert(ov.take(0) =~= Seq::<(Seq<char>, JsonV)>::empty());
        assert(entries_view(out@) =~= Seq::<(Seq<char>, JsonV)>::empty());
    }
    let mut k: usize = 0;
    while rest.len() > 0
        invariant
            0 <= k <= orig.len(),
            rest@ == orig.skip(k as int),
            rest@.len() == orig.len() - k,
            orig.len() == n,
            n <= usize::MAX,
            orig == entries@,
            ov == entries_view(orig),
            dv == entries_view(defs@),
            visiting@ == vis0,
            vis0 == old(visiting)@,
            resolve_entries(ov.take(k as int), dv, depth as nat, max_depth as nat, vis_set(vis0))
                == Ok::<Seq<(Seq<char>, JsonV)>, RefErr>(entries_view(out@)),
            forall|j: int| 0 <= j < orig.len() ==> decreases_to!(entries => orig[j].1),
        decreases rest.len(),
    {
        let (key, x) = rest.remove(0);
        assert(x == orig[k as int].1);
        assert(rest@ == orig.skip(k + 1));
        let ghost xv = x@;
        let ghost kv = key@;
        let res = resolve_node(x, defs, depth, max_depth, visiting, module_id);
        proof {
            assert(ov.take(k + 1).drop_last() == ov.take(k as int));
            assert(ov.take(k + 1).last() == (kv, xv));
        }
        match res {
            Ok(v) => {
                let ghost prev = out@;
                out.push((key, v));
                assert(entries_view(out@) =~= entries_view(prev).push((kv, v@)));
            },
            Err(e) => {
                proof {
                    lemma_entries_err_extends(ov, k + 1, dv, depth as nat, max_depth as nat, vis_set(vis0));
                }
                return Err(e);
            },
        }
        k = k + 1;
    }
    assert(k == orig.len()) by {
        assert(orig.skip(k as int).len() == 0);
    }
    assert(ov.take(k as int) == ov);
    Ok(out)
}

/// Builds the `allOf` result object from the node's own entries and its
/// resolved branches.
fn allof_merge(parent: &Vec<(String, Json)>, branches: &Vec<Json>) -> (r: Json)
    ensures
        r@ == allof_result(entries_view(parent@), json_seq_view(branches@)),
{
    let mut props = union_props_exec(branches);
    let mut req = concat_required_exec(branches);
    let ghost pv = entries_view(parent@);
    proof {
        lemma_object_view(parent);
    }
    match entries_get(parent, "properties") {
        Some(pp) => match pp.as_object() {
            Some(o) => insert_missing_all_exec(&mut props, o),
            None => {},
        },
        None => {},
    }
    match entries_get(parent, "required") {
        Some(pr) => match pr.as_array() {
            Some(a) => push_missing_all_exec(&mut req, a),
            None => {},
        },
        None => {},
    }
    let ghost propsv = entries_view(props@);
    let ghost reqv = json_seq_view(req@);
    let mut result: Vec<(String, Json)> = Vec::new();
    let pj = Json::Object(props);
    let rj = Json::Array(req);
    proof {
        lemma_object_view(&props);
        lemma_array_view(&req);
        reveal_strlit("properties");
        reveal_strlit("required");
    }
    result.push((owned("properties"), pj));
    result.push((owned("required"), rj));
    assert(entries_view(result@) =~= seq![("properties"@, JsonV::Object(propsv)), ("required"@, JsonV::Array(reqv))]);
    copy_missing_exec(&mut result, parent, "allOf");
    proof {
        lemma_object_view(&result);
    }
    Json::Object(result)
}

/// Builds the `anyOf` / `oneOf` result object.
fn anyof_merge(parent: &Vec<(String, Json)>, branches: &Vec<Json>, keyword: &str) -> (r: Json)
    ensures
        r@ == anyof_result(entries_view(parent@), json_seq_view(branches@), keyword@),
{
    let props = union_props_exec(branches);
    let req = common_required_exec(branches);
    let ghost propsv = entries_view(props@);
    let ghost reqv = json_seq_view(req@);
    let mut result: Vec<(String, Json)> = Vec::new();
    let pj = Json::Object(props);
    let rj = Json::Array(req);
    proof {
        lemma_object_view(&props);
        lemma_array_view(&req);
    }
    result.push((owned("properties"), pj));
    result.push((owned("required"), rj));
    assert(entries_view(result@) =~= seq![("properties"@, JsonV::Object(propsv)), ("required"@, JsonV::Array(reqv))]);
    copy_missing_exec(&mut result, parent, keyword);
    proof {
        lemma_object_view(&result);
    }
    Json::Object(result)
}

fn resolve_node(
    node: Json,
    defs: &Vec<(String, Json)>,
    depth: usize,
    max_depth: usize,
    visiting: &mut Vec<String>,
    module_id: &str,
) -> (r: Result<Json, RefResolverError>)
    ensures
        match r {
            Ok(v) => resolve_spec(
                node@,
                entries_view(defs@),
                depth as nat,
                max_depth as nat,
                vis_set(old(visiting)@),
            ) == Ok::<JsonV, RefErr>(v@) && final(visiting)@ == old(visiting)@,
            Err(e) => resolve_spec(
                node@,
                entries_view(defs@),
                depth as nat,
                max_depth as nat,
                vis_set(old(visiting)@),
            ) == Err::<JsonV, RefErr>(e.kind()) && e.for_module(module_id@, max_depth as nat),
        },
    decreases ref_budget(depth as nat, max_depth as nat), node,
{
    let ghost nv = node@;
    let ghost dv = entries_view(defs@);
    let ghost vis0 = visiting@;
    let mut entries = match node {
        Json::Object(e) => e,
        Json::Array(items) => {
            proof {
                lemma_array_view(&items);
                assert(decreases_to!(node => items));
            }
            return match resolve_list(items, defs, depth, max_depth, visiting, module_id) {
                Ok(v) => {
                    proof {
                        lemma_array_view(&v);
                    }
                    Ok(Json::Array(v))
                },
                Err(e) => Err(e),
            };
        },
        other => return Ok(other),
    };
    let ghost orig = entries@;
    let ghost ev = entries_view(orig);
    proof {
        lemma_object_view(&entries);
        assert(nv == JsonV::Object(ev));
    }
    // `$ref` substitution.
    match entries_get(&entries, "$ref") {
        Some(rv) => {
            let path: String = match rv.as_str() {
                Some(s) => s.clone(),
                None => String::new(),
            };
            if depth >= max_depth {
                return Err(RefResolverError::MaxDepthExceeded { max_depth, module_id: owned(module_id) });
            }
            if string_in(path.as_str(), visiting) {
                return Err(RefResolverError::Circular { module_id: owned(module_id) });
            }
            let key = ref_key_exec(path.as_str());
            match entries_get(defs, key.as_str()) {
                None => {
                    return Err(RefResolverError::Unresolvable { reference: path, module_id: owned(module_id) });
                },
                Some(def) => {
                    let d = def.dup();
                    proof {
                        lemma_vis_push(visiting@, path);
                    }
                    visiting.push(path.clone());
                    let res = resolve_node(d, defs, depth + 1, max_depth, visiting, module_id);
                    match res {
                        Ok(v) => {
                            visiting.pop();
                            assert(visiting@ =~= vis0);
                            return Ok(v);
                        },
                        Err(e) => {
                            return Err(e);
                        },
                    }
                },
            }
        },
        None => {},
    }
    let next: usize = if depth < max_depth { depth + 1 } else { depth };
    // Composition keywords.
    let kw_idx: Option<(usize, &str)> = match find_key(&entries, "allOf") {
        Some(i) => Some((i, "allOf")),
        None => match find_key(&entries, "anyOf") {
            Some(i) => Some((i, "anyOf")),
            None => match find_key(&entries, "oneOf") {
                Some(i) => Some((i, "oneOf")),
                None => None,
            },
        },
    };
    proof {
        lemma_key_index(ev, "allOf"@);
        lemma_key_index(ev, "anyOf"@);
        lemma_key_index(ev, "oneOf"@);
    }
    match kw_idx {
        Some((idx, kw)) => {
            let parent = crate::json::dup_entries(&entries);
            proof {
                assert(decreases_to!(node => entries));
                assert(decreases_to!(entries => entries@));
                assert(decreases_to!(entries@ => entries@[idx as int]));
                assert(decreases_to!(entries@[idx as int] => entries@[idx as int].1));
            }
            let (_, kv) = entries.remove(idx);
            assert(kv == orig[idx as int].1);
            let branches: Vec<Json> = match kv {
                Json::Array(subs) => {
                    proof {
                        assert(decreases_to!(kv => subs));
                        lemma_array_view(&subs);
                    }
                    match resolve_list(subs, defs, next, max_depth, visiting, module_id) {
                        Ok(b) => b,
                        Err(e) => {
                            return Err(e);
                        },
                    }
                },
                _ => Vec::new(),
            };
            let res = if str_eq(kw, "allOf") {
                allof_merge(&parent, &branches)
            } else {
                anyof_merge(&parent, &branches, kw)
            };
            proof {
                lemma_array_view(&branches);
                reveal_strlit("allOf");
                reveal_strlit("anyOf");
                reveal_strlit("oneOf");
            }
            Ok(res)
        },
        None => {
            proof {
                assert(decreases_to!(node => entries));
            }
            match resolve_members(entries, defs, depth, max_depth, visiting, module_id) {
                Ok(es) => {
                    proof {
                        lemma_object_view(&es);
                    }
                    Ok(Json::Object(es))
                },
                Err(e) => Err(e),
            }
        },
    }
}

fn swap_remove_key_exec(entries: &mut Vec<(String, Json)>, key: &str)
    ensures
        entries_view(final(entries)@) == swap_remove_key(entries_view(old(entries)@), key@),
{
    proof {
        lemma_key_index(entries_view(entries@), key@);
    }
    match find_key(entries, key) {
        Some(i) => {
            let ghost ov = entries_view(entries@);
            let _ = entries.swap_remove(i);
            assert(entries_view(entries@) =~= ov.update(i as int, ov.last()).drop_last());
        },
        None => {},
    }
}

/// Inline all `$ref` pointers in a JSON Schema value.
///
/// `$ref` values are looked up in `schema["$defs"]` (or
/// `schema["definitions"]`) by their last path segment and substituted,
/// recursively, up to `max_depth` nested references. `allOf` branches are
/// merged (properties unioned with later branches winning, `required`
/// concatenated); `anyOf` / `oneOf` branches union their properties and keep
/// only the names every branch requires. Schemas inside arrays (such as
/// `prefixItems`) are resolved item by item. The definition tables are removed
/// from the result. The input is not modified.
///
/// Errors: an unknown target is `Unresolvable`, a `$ref` met again on its own
/// chain is `Circular`, and more than `max_depth` nested references is
/// `MaxDepthExceeded`.
pub fn resolve_refs(schema: &Json, max_depth: usize, module_id: &str) -> (r: Result<
    Json,
    RefResolverError,
>)
    ensures
        match r {
            Ok(v) => resolve_refs_spec(schema@, max_depth as nat) == Ok::<JsonV, RefErr>(v@),
            Err(e) => resolve_refs_spec(schema@, max_depth as nat) == Err::<JsonV, RefErr>(e.kind())
                && e.for_module(module_id@, max_depth as nat),
        },
{
    let copy = schema.dup();
    let found = match copy.get("$defs") {
        Some(d) => Some(d),
        None => copy.get("definitions"),
    };
    let defs: Vec<(String, Json)> = match found {
        Some(d) => match d.as_object() {
            Some(o) => crate::json::dup_entries(o),
            None => Vec::new(),
        },
        None => Vec::new(),
    };
    assert(entries_view(defs@) == defs_of(schema@));
    let mut visiting: Vec<String> = Vec::new();
    assert(vis_set(visiting@) =~= Set::<Seq<char>>::empty());
    let resolved = match resolve_node(copy, &defs, 0, max_depth, &mut visiting, module_id) {
        Ok(v) => v,
        Err(e) => {
            return Err(e);
        },
    };
    match resolved {
        Json::Object(e) => {
            let mut e = e;
            proof {
                lemma_object_view(&e);
            }
            swap_remove_key_exec(&mut e, "$defs");
            swap_remove_key_exec(&mut e, "definitions");
            proof {
                lemma_object_view(&e);
            }
            Ok(Json::Object(e))
        },
        other => Ok(other),
    }
}

} // verus!
