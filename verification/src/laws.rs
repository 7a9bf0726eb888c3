use vstd::prelude::*;
use vstd::set_lib::{lemma_set_disjoint_lens, lemma_set_intersect_union_lens};
use crate::contract::{Contract, ContractView};
use crate::export::ExportKey;
use crate::import::ImportKey;
use crate::keyed::{
    by_key, combined, distinct, fresh, holds, lemma_by_key_len, lemma_combined, Keyed,
};

verus! {

/// Taking a list into itself adds nothing to it: every key is held already.
pub proof fn lemma_combined_with_itself<V: Keyed>(list: Seq<V>)
    ensures
        combined(list, list) == list,
{
    let keep = fresh(by_key(list));
    let added = list.filter(keep);
    if added.len() > 0 {
        let v = added[0];
        list.lemma_filter_pred(keep, 0);
        assert(added.contains(v));
        list.lemma_filter_contains_rev(keep, v);
        let i = choose|i: int| 0 <= i < list.len() && list[i] == v;
        assert(list[i].key() == v.key());
        assert(holds(list, v.key()));
    }
    assert(combined(list, list) =~= list);
}

/// Merging a contract with itself succeeds and gives the contract back: the
/// same bindings under the same keys, held in the same order.
pub proof fn lemma_merge_with_itself(a: Contract)
    ensures
        a@.merge(a@) == Some(a@),
        combined(a.import_list(), a.import_list()) == a.import_list(),
        combined(a.export_list(), a.export_list()) == a.export_list(),
{
    lemma_combined_with_itself(a.import_list());
    lemma_combined_with_itself(a.export_list());
}

/// Where two contracts define one import, or one export, in two ways, merging
/// fails whichever of them is merged into the other.
pub proof fn lemma_conflict_either_way(a: Contract, b: Contract)
    requires
        a@.in_conflict(b@),
    ensures
        a@.merge(b@) is None,
        b@.merge(a@) is None,
{
    if exists|key: ImportKey| a@.conflicting_import(b@, key) {
        let key = choose|key: ImportKey| a@.conflicting_import(b@, key);
        assert(a@.imports.contains_key(key) && b@.imports.contains_key(key));
    } else {
        let key = choose|key: ExportKey| a@.conflicting_export(b@, key);
        assert(a@.exports.contains_key(key) && b@.exports.contains_key(key));
    }
}

/// Whether two contracts merge does not depend on which is merged into which,
/// and where they do, both directions give the same bindings.
pub proof fn lemma_merge_either_way(a: Contract, b: Contract)
    ensures
        a@.merge(b@) == b@.merge(a@),
{
}

/// Three contracts of which each two are compatible merge in any grouping, and
/// every grouping gives the same bindings.
pub proof fn lemma_merge_in_any_grouping(a: Contract, b: Contract, c: Contract)
    requires
        a@.compatible(b@),
        a@.compatible(c@),
        b@.compatible(c@),
    ensures
        a@.union(b@).merge(c@) == Some(a@.union(b@).union(c@)),
        a@.merge(b@.union(c@)) == Some(a@.union(b@).union(c@)),
{
}

/// Two contracts that share no import key and no export key merge, and the
/// result has as many imports as both together, and as many exports.
pub proof fn lemma_disjoint_union(a: Contract, b: Contract)
    requires
        a@.imports.dom().disjoint(b@.imports.dom()),
        a@.exports.dom().disjoint(b@.exports.dom()),
    ensures
        a@.merge(b@) == Some(a@.union(b@)),
        a@.union(b@).imports.len() == a@.imports.len() + b@.imports.len(),
        a@.union(b@).exports.len() == a@.exports.len() + b@.exports.len(),
{
    lemma_by_key_len(a.import_list());
    lemma_by_key_len(b.import_list());
    lemma_by_key_len(a.export_list());
    lemma_by_key_len(b.export_list());
    lemma_set_disjoint_lens(a@.imports.dom(), b@.imports.dom());
    lemma_set_disjoint_lens(a@.exports.dom(), b@.exports.dom());
    assert(a@.union(b@).imports.dom() =~= a@.imports.dom() + b@.imports.dom());
    assert(a@.union(b@).exports.dom() =~= a@.exports.dom() + b@.exports.dom());
}

/// An import that two compatible contracts both hold is held once by their
/// merge: the result has as many imports as both together, less those that
/// both hold, and the list of its imports holds the key at one place only.
pub proof fn lemma_shared_import_once(a: Contract, b: Contract, key: ImportKey)
    requires
        a.well_formed(),
        b.well_formed(),
        a@.imports.contains_key(key),
        b@.imports.contains_key(key),
        a@.imports[key] == b@.imports[key],
        a@.compatible(b@),
    ensures
        a@.merge(b@) == Some(a@.union(b@)),
        a@.union(b@).imports.contains_key(key),
        a@.union(b@).imports[key] == a@.imports[key],
        a@.union(b@).imports.len() + a@.imports.dom().intersect(b@.imports.dom()).len()
            == a@.imports.len() + b@.imports.len(),
        a@.union(b@).imports.len() < a@.imports.len() + b@.imports.len(),
        holds(combined(a.import_list(), b.import_list()), key),
        distinct(combined(a.import_list(), b.import_list())),
{
    lemma_combined(a.import_list(), b.import_list());
    assert(by_key(combined(a.import_list(), b.import_list())).contains_key(key));
    lemma_by_key_len(a.import_list());
    lemma_by_key_len(b.import_list());
    let shared = a@.imports.dom().intersect(b@.imports.dom());
    lemma_set_intersect_union_lens(a@.imports.dom(), b@.imports.dom());
    assert(a@.union(b@).imports.dom() =~= a@.imports.dom() + b@.imports.dom());
    assert(shared.contains(key));
}

/// An export that two compatible contracts both hold is held once by their
/// merge: the result has as many exports as both together, less those that
/// both hold, and the list of its exports holds the key at one place only.
pub proof fn lemma_shared_export_once(a: Contract, b: Contract, key: ExportKey)
    requires
        a.well_formed(),
        b.well_formed(),
        a@.exports.contains_key(key),
        b@.exports.contains_key(key),
        a@.exports[key] == b@.exports[key],
        a@.compatible(b@),
    ensures
        a@.merge(b@) == Some(a@.union(b@)),
        a@.union(b@).exports.contains_key(key),
        a@.union(b@).exports[key] == a@.exports[key],
        a@.union(b@).exports.len() + a@.exports.dom().intersect(b@.exports.dom()).len()
            == a@.exports.len() + b@.exports.len(),
        a@.union(b@).exports.len() < a@.exports.len() + b@.exports.len(),
        holds(combined(a.export_list(), b.export_list()), key),
        distinct(combined(a.export_list(), b.export_list())),
{
    lemma_combined(a.export_list(), b.export_list());
    assert(by_key(combined(a.export_list(), b.export_list())).contains_key(key));
    lemma_by_key_len(a.export_list());
    lemma_by_key_len(b.export_list());
    let shared = a@.exports.dom().intersect(b@.exports.dom());
    lemma_set_intersect_union_lens(a@.exports.dom(), b@.exports.dom());
    assert(a@.union(b@).exports.dom() =~= a@.exports.dom() + b@.exports.dom());
    assert(shared.contains(key));
}

/// A merge fails only over two imports of one key or two exports of one key:
/// an import and an export are never compared, whatever strings they share.
pub proof fn lemma_conflicts_within_one_kind(a: Contract, b: Contract)
    ensures
        a@.merge(b@) is None <==> a@.in_conflict(b@),
{
    if !a@.imports.agrees(b@.imports) {
        let key = choose|key: ImportKey|
            a@.imports.dom().contains(key) && b@.imports.dom().contains(key)
                && a@.imports[key] != b@.imports[key];
        assert(a@.conflicting_import(b@, key));
    }
    if !a@.exports.agrees(b@.exports) {
        let key = choose|key: ExportKey|
            a@.exports.dom().contains(key) && b@.exports.dom().contains(key)
                && a@.exports[key] != b@.exports[key];
        assert(a@.conflicting_export(b@, key));
    }
    if exists|key: ImportKey| a@.conflicting_import(b@, key) {
        let key = choose|key: ImportKey| a@.conflicting_import(b@, key);
        assert(a@.imports.contains_key(key) && b@.imports.contains_key(key));
    }
    if exists|key: ExportKey| a@.conflicting_export(b@, key) {
        let key = choose|key: ExportKey| a@.conflicting_export(b@, key);
        assert(a@.exports.contains_key(key) && b@.exports.contains_key(key));
    }
}

/// A contract that holds imports only and one that holds exports only always
/// merge, and the result holds the imports of the one and the exports of the
/// other: an import never conflicts with an export, even of the same name.
pub proof fn lemma_import_apart_from_export(a: Contract, b: Contract)
    requires
        a@.exports.dom() == Set::<ExportKey>::empty(),
        b@.imports.dom() == Set::<ImportKey>::empty(),
    ensures
        a@.merge(b@) == Some((ContractView { imports: a@.imports, exports: b@.exports })),
{
}

} // verus!
