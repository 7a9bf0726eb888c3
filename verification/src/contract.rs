use vstd::prelude::*;
use vstd::std_specs::cmp::PartialEqSpecImpl;
use crate::export::{export_views, Export, ExportKey, ExportView};
use crate::import::{import_views, Import, ImportKey, ImportView};
use crate::keyed::{
    absorbed, by_key, combined, distinct, first_clash, holds, is_first_clash, lemma_absorbed_next,
    lemma_absorbed_none, lemma_agrees_iff_no_clash, lemma_by_key_at, lemma_by_key_len,
    lemma_by_key_push, lemma_by_key_update, lemma_first_clash, lemma_same_mapping, slot, Keyed,
};
use crate::text::{
    export_conflict_message, export_conflict_text, import_conflict_message, import_conflict_text,
};

verus! {

/// The interface of one module: the bindings it imports and the bindings it
/// exports, each held under its key, in the order in which they were added.
#[derive(Debug, Eq)]
pub struct Contract {
    imports: Vec<Import>,
    exports: Vec<Export>,
}

/// A [`Contract`] as a mathematical value: what each key stands for.
#[verifier::ext_equal]
pub struct ContractView {
    pub imports: Map<ImportKey, ImportView>,
    pub exports: Map<ExportKey, ExportView>,
}

impl View for Contract {
    type V = ContractView;

    open spec fn view(&self) -> ContractView {
        ContractView { imports: by_key(self.import_list()), exports: by_key(self.export_list()) }
    }
}

impl ContractView {
    /// Both contracts hold an import under `key`, and the two definitions
    /// differ.
    pub open spec fn conflicting_import(self, other: ContractView, key: ImportKey) -> bool {
        &&& self.imports.contains_key(key)
        &&& other.imports.contains_key(key)
        &&& self.imports[key] != other.imports[key]
    }

    /// Both contracts hold an export under `key`, and the two definitions
    /// differ.
    pub open spec fn conflicting_export(self, other: ContractView, key: ExportKey) -> bool {
        &&& self.exports.contains_key(key)
        &&& other.exports.contains_key(key)
        &&& self.exports[key] != other.exports[key]
    }

    /// The two contracts define some import, or some export, in two ways.
    pub open spec fn in_conflict(self, other: ContractView) -> bool {
        ||| exists|key: ImportKey| self.conflicting_import(other, key)
        ||| exists|key: ExportKey| self.conflicting_export(other, key)
    }

    /// Every key that both contracts hold stands for the same definition in
    /// both: imports compared with imports, exports with exports.
    pub open spec fn compatible(self, other: ContractView) -> bool {
        self.imports.agrees(other.imports) && self.exports.agrees(other.exports)
    }

    /// The bindings of both contracts together.
    pub open spec fn union(self, other: ContractView) -> ContractView {
        ContractView {
            imports: self.imports.union_prefer_right(other.imports),
            exports: self.exports.union_prefer_right(other.exports),
        }
    }

    /// What merging `other` into this contract gives: the bindings of both
    /// where they are compatible, and nothing where they are not.
    pub open spec fn merge(self, other: ContractView) -> Option<ContractView> {
        if self.compatible(other) {
            Some(self.union(other))
        } else {
            None
        }
    }
}

/// The report of the first import of `incoming` that contradicts `base`: its
/// key, the definition that `base` holds, and the incoming one.
pub open spec fn import_conflict(
    base: Map<ImportKey, ImportView>,
    incoming: Seq<ImportView>,
) -> Seq<char> {
    let import = incoming[first_clash(base, incoming)];
    import_conflict_text(
        import.key().0,
        import.key().1,
        base[import.key()].rendering(),
        import.rendering(),
    )
}

/// The report of the first export of `incoming` that contradicts `base`: its
/// key, the definition that `base` holds, and the incoming one.
pub open spec fn export_conflict(
    base: Map<ExportKey, ExportView>,
    incoming: Seq<ExportView>,
) -> Seq<char> {
    let export = incoming[first_clash(base, incoming)];
    export_conflict_text(export.key(), base[export.key()].rendering(), export.rendering())
}

/// Takes the imports of `incoming` into a copy of `base`, in order, up to the
/// first that contradicts `base`.
fn absorb_imports(
    base: &Vec<Import>,
    incoming: Vec<Import>,
) -> (outcome: Result<Vec<Import>, String>)
    requires
        distinct(import_views(base@)),
        distinct(import_views(incoming@)),
    ensures
        match outcome {
            Ok(list) => absorbed(
                import_views(base@),
                import_views(incoming@),
                incoming@.len() as int,
                import_views(list@),
            ),
            Err(message) => {
                &&& exists|i: int|
                    is_first_clash(by_key(import_views(base@)), import_views(incoming@), i)
                &&& message@ == import_conflict(
                    by_key(import_views(base@)),
                    import_views(incoming@),
                )
            },
        },
{
    let ghost held = import_views(base@);
    let ghost offered = import_views(incoming@);
    let mut list = base.clone();
    proof {
        assert(import_views(list@) =~= held);
        lemma_absorbed_none(held, offered);
    }
    for import in it: incoming
        invariant
            it.seq() == incoming@,
            held == import_views(base@),
            offered == import_views(incoming@),
            distinct(held),
            distinct(offered),
            absorbed(held, offered, it.index() as int, import_views(list@)),
    {
        let ghost n = it.index() as int;
        let ghost taken = import_views(list@);
        match find_import(base, import.namespace(), import.name()) {
            Some(p) => {
                proof {
                    lemma_by_key_at(held, p as int);
                }
                if import != base[p] {
                    proof {
                        lemma_first_clash(by_key(held), offered, n);
                    }
                    return Err(
                        import_conflict_message(
                            import.namespace().as_str(),
                            import.name().as_str(),
                            base[p].render().as_str(),
                            import.render().as_str(),
                        ),
                    );
                }
                proof {
                    lemma_absorbed_next(held, offered, n, taken);
                }
            },
            None => {
                proof {
                    lemma_absorbed_next(held, offered, n, taken);
                }
                list.push(import);
                assert(import_views(list@) =~= taken.push(offered[n]));
            },
        }
    }
    Ok(list)
}

/// Takes the exports of `incoming` into a copy of `base`, in order, up to the
/// first that contradicts `base`.
fn absorb_exports(
    base: &Vec<Export>,
    incoming: Vec<Export>,
) -> (outcome: Result<Vec<Export>, String>)
    requires
        distinct(export_views(base@)),
        distinct(export_views(incoming@)),
    ensures
        match outcome {
            Ok(list) => absorbed(
                export_views(base@),
                export_views(incoming@),
                incoming@.len() as int,
                export_views(list@),
            ),
            Err(message) => {
                &&& exists|i: int|
                    is_first_clash(by_key(export_views(base@)), export_views(incoming@), i)
                &&& message@ == export_conflict(
                    by_key(export_views(base@)),
                    export_views(incoming@),
                )
            },
        },
{
    let ghost held = export_views(base@);
    let ghost offered = export_views(incoming@);
    let mut list = base.clone();
    proof {
        assert(export_views(list@) =~= held);
        lemma_absorbed_none(held, offered);
    }
    for export in it: incoming
        invariant
            it.seq() == incoming@,
            held == export_views(base@),
            offered == export_views(incoming@),
            distinct(held),
            distinct(offered),
            absorbed(held, offered, it.index() as int, export_views(list@)),
    {
        let ghost n = it.index() as int;
        let ghost taken = export_views(list@);
        match find_export(base, export.name()) {
            Some(p) => {
                proof {
                    lemma_by_key_at(held, p as int);
                }
                if export != base[p] {
                    proof {
                        lemma_first_clash(by_key(held), offered, n);
                    }
                    return Err(
                        export_conflict_message(
                            export.name().as_str(),
                            base[p].render().as_str(),
                            export.render().as_str(),
                        ),
                    );
                }
                proof {
                    lemma_absorbed_next(held, offered, n, taken);
                }
            },
            None => {
                proof {
                    lemma_absorbed_next(held, offered, n, taken);
                }
                list.push(export);
                assert(export_views(list@) =~= taken.push(offered[n]));
            },
        }
    }
    Ok(list)
}

/// The position in `list` of the import with this namespace and name.
fn find_import(list: &Vec<Import>, namespace: &String, name: &String) -> (found: Option<usize>)
    ensures
        match found {
            Some(i) => i < list.len() && list[i as int]@.key() == (namespace@, name@),
            None => !holds(import_views(list@), (namespace@, name@)),
        },
{
    let mut i: usize = 0;
    while i < list.len()
        invariant
            i <= list.len(),
            forall|j: int| 0 <= j < i ==> (#[trigger] list@[j])@.key() != (namespace@, name@),
        decreases list.len() - i,
    {
        if *list[i].namespace() == *namespace && *list[i].name() == *name {
            return Some(i);
        }
        i += 1;
    }
    None
}

/// The position in `list` of the export with this name.
fn find_export(list: &Vec<Export>, name: &String) -> (found: Option<usize>)
    ensures
        match found {
            Some(i) => i < list.len() && list[i as int]@.key() == name@,
            None => !holds(export_views(list@), name@),
        },
{
    let mut i: usize = 0;
    while i < list.len()
        invariant
            i <= list.len(),
            forall|j: int| 0 <= j < i ==> (#[trigger] list@[j])@.key() != name@,
        decreases list.len() - i,
    {
        if *list[i].name() == *name {
            return Some(i);
        }
        i += 1;
    }
    None
}

/// Whether two lists of imports hold the same definitions under the same
/// keys, in whatever order.
fn same_imports(a: &Vec<Import>, b: &Vec<Import>) -> (same: bool)
    requires
        distinct(import_views(a@)),
        distinct(import_views(b@)),
    ensures
        same == (by_key(import_views(a@)) == by_key(import_views(b@))),
{
    let ghost left = import_views(a@);
    let ghost right = import_views(b@);
    proof {
        lemma_by_key_len(left);
        lemma_by_key_len(right);
    }
    if a.len() != b.len() {
        return false;
    }
    let mut i: usize = 0;
    while i < a.len()
        invariant
            i <= a.len(),
            left == import_views(a@),
            right == import_views(b@),
            distinct(left),
            distinct(right),
            forall|j: int|
                0 <= j < i ==> by_key(right).contains_key((#[trigger] left[j]).key())
                    && by_key(right)[left[j].key()] == left[j],
        decreases a.len() - i,
    {
        proof {
            lemma_by_key_at(left, i as int);
        }
        match find_import(b, a[i].namespace(), a[i].name()) {
            Some(p) => {
                proof {
                    lemma_by_key_at(right, p as int);
                }
                if a[i] != b[p] {
                    return false;
                }
            },
            None => {
                return false;
            },
        }
        i += 1;
    }
    proof {
        lemma_same_mapping(left, right);
    }
    true
}

/// Whether two lists of exports hold the same definitions under the same
/// keys, in whatever order.
fn same_exports(a: &Vec<Export>, b: &Vec<Export>) -> (same: bool)
    requires
        distinct(export_views(a@)),
        distinct(export_views(b@)),
    ensures
        same == (by_key(export_views(a@)) == by_key(export_views(b@))),
{
    let ghost left = export_views(a@);
    let ghost right = export_views(b@);
    proof {
        lemma_by_key_len(left);
        lemma_by_key_len(right);
    }
    if a.len() != b.len() {
        return false;
    }
    let mut i: usize = 0;
    while i < a.len()
        invariant
            i <= a.len(),
            left == export_views(a@),
            right == export_views(b@),
            distinct(left),
            distinct(right),
            forall|j: int|
                0 <= j < i ==> by_key(right).contains_key((#[trigger] left[j]).key())
                    && by_key(right)[left[j].key()] == left[j],
        decreases a.len() - i,
    {
        proof {
            lemma_by_key_at(left, i as int);
        }
        match find_export(b, a[i].name()) {
            Some(p) => {
                proof {
                    lemma_by_key_at(right, p as int);
                }
                if a[i] != b[p] {
                    return false;
                }
            },
            None => {
                return false;
            },
        }
        i += 1;
    }
    proof {
        lemma_same_mapping(left, right);
    }
    true
}

impl Contract {
    /// The imports in the order in which the contract holds them.
    pub closed spec fn import_list(&self) -> Seq<ImportView> {
        import_views(self.imports@)
    }

    /// The exports in the order in which the contract holds them.
    pub closed spec fn export_list(&self) -> Seq<ExportView> {
        export_views(self.exports@)
    }

    /// No two imports share a key, and no two exports do.
    #[verifier::type_invariant]
    pub open spec fn well_formed(&self) -> bool {
        distinct(self.import_list()) && distinct(self.export_list())
    }

    /// A contract without bindings.
    pub fn new() -> (contract: Contract)
        ensures
            contract.import_list() == Seq::<ImportView>::empty(),
            contract.export_list() == Seq::<ExportView>::empty(),
    {
        Contract { imports: Vec::new(), exports: Vec::new() }
    }

    /// The number of imports.
    pub fn import_count(&self) -> (count: usize)
        ensures
            count == self.import_list().len(),
            count == self@.imports.len(),
    {
        proof {
            use_type_invariant(self);
            lemma_by_key_len(self.import_list());
        }
        self.imports.len()
    }

    /// The number of exports.
    pub fn export_count(&self) -> (count: usize)
        ensures
            count == self.export_list().len(),
            count == self@.exports.len(),
    {
        proof {
            use_type_invariant(self);
            lemma_by_key_len(self.export_list());
        }
        self.exports.len()
    }

    /// The import held under `key`.
    pub fn get_import(&self, key: &(String, String)) -> (found: Option<&Import>)
        ensures
            match found {
                Some(import) => self@.imports.contains_key(key@) && import@ == self@.imports[key@],
                None => !self@.imports.contains_key(key@),
            },
    {
        proof {
            use_type_invariant(self);
        }
        match find_import(&self.imports, &key.0, &key.1) {
            Some(i) => {
                proof {
                    lemma_by_key_at(self.import_list(), i as int);
                }
                Some(&self.imports[i])
            },
            None => None,
        }
    }

    /// The export held under `key`.
    pub fn get_export(&self, key: &String) -> (found: Option<&Export>)
        ensures
            match found {
                Some(export) => self@.exports.contains_key(key@) && export@ == self@.exports[key@],
                None => !self@.exports.contains_key(key@),
            },
    {
        proof {
            use_type_invariant(self);
        }
        match find_export(&self.exports, key) {
            Some(i) => {
                proof {
                    lemma_by_key_at(self.export_list(), i as int);
                }
                Some(&self.exports[i])
            },
            None => None,
        }
    }

    /// Puts `import` under its key. An import of a new key is added after
    /// those held; one of a key that is held takes the place of the import
    /// held under it, which is returned.
    pub fn insert_import(&mut self, import: Import) -> (previous: Option<Import>)
        ensures
            final(self)@.imports == old(self)@.imports.insert(import@.key(), import@),
            final(self).export_list() == old(self).export_list(),
            (previous is Some) == old(self)@.imports.contains_key(import@.key()),
            previous matches Some(held) ==> held@ == old(self)@.imports[import@.key()],
            previous is Some ==> final(self).import_list() == old(self).import_list().update(
                slot(old(self).import_list(), import@.key()),
                import@,
            ),
            previous is None ==> final(self).import_list() == old(self).import_list().push(
                import@,
            ),
    {
        proof {
            use_type_invariant(&*self);
        }
        let ghost held = self.import_list();
        let found = find_import(&self.imports, import.namespace(), import.name());
        let mut imports: Vec<Import> = Vec::new();
        std::mem::swap(&mut imports, &mut self.imports);
        let previous = match found {
            Some(i) => {
                proof {
                    lemma_by_key_at(held, i as int);
                    lemma_by_key_update(held, i as int, import@);
                }
                imports.push(import);
                let previous = imports.swap_remove(i);
                assert(import_views(imports@) =~= held.update(i as int, import@));
                Some(previous)
            },
            None => {
                proof {
                    lemma_by_key_push(held, import@);
                }
                imports.push(import);
                assert(import_views(imports@) =~= held.push(import@));
                None
            },
        };
        self.imports = imports;
        previous
    }

    /// Puts `export` under its key. An export of a new key is added after
    /// those held; one of a key that is held takes the place of the export
    /// held under it, which is returned.
    pub fn insert_export(&mut self, export: Export) -> (previous: Option<Export>)
        ensures
            final(self)@.exports == old(self)@.exports.insert(export@.key(), export@),
            final(self).import_list() == old(self).import_list(),
            (previous is Some) == old(self)@.exports.contains_key(export@.key()),
            previous matches Some(held) ==> held@ == old(self)@.exports[export@.key()],
            previous is Some ==> final(self).export_list() == old(self).export_list().update(
                slot(old(self).export_list(), export@.key()),
                export@,
            ),
            previous is None ==> final(self).export_list() == old(self).export_list().push(
                export@,
            ),
    {
        proof {
            use_type_invariant(&*self);
        }
        let ghost held = self.export_list();
        let found = find_export(&self.exports, export.name());
        let mut exports: Vec<Export> = Vec::new();
        std::mem::swap(&mut exports, &mut self.exports);
        let previous = match found {
            Some(i) => {
                proof {
                    lemma_by_key_at(held, i as int);
                    lemma_by_key_update(held, i as int, export@);
                }
                exports.push(export);
                let previous = exports.swap_remove(i);
                assert(export_views(exports@) =~= held.update(i as int, export@));
                Some(previous)
            },
            None => {
                proof {
                    lemma_by_key_push(held, export@);
                }
                exports.push(export);
                assert(export_views(exports@) =~= held.push(export@));
                None
            },
        };
        self.exports = exports;
        previous
    }

    /// The imports, in the order in which the contract holds them.
    pub fn imports(&self) -> (list: &Vec<Import>)
        ensures
            import_views(list@) == self.import_list(),
    {
        &self.imports
    }

    /// The exports, in the order in which the contract holds them.
    pub fn exports(&self) -> (list: &Vec<Export>)
        ensures
            export_views(list@) == self.export_list(),
    {
        &self.exports
    }

    /// What a failed merge of `other` into this contract reports: the first
    /// import of `other`, in its order, that this contract defines otherwise,
    /// or, where the imports are compatible, the first such export.
    pub open spec fn conflict_report(&self, other: Contract) -> Seq<char> {
        if !self@.imports.agrees(other@.imports) {
            import_conflict(self@.imports, other.import_list())
        } else {
            export_conflict(self@.exports, other.export_list())
        }
    }

    /// Combines this contract with `other`. A key that both hold must stand
    /// for equal definitions in both; the first that does not ends the merge
    /// with a report of the conflict. Otherwise the result holds the bindings
    /// of this contract, followed by those of `other` whose key is new.
    pub fn merge(&self, other: Contract) -> (merged: Result<Contract, String>)
        ensures
            match merged {
                Ok(contract) => self@.merge(other@) == Some(contract@)
                    && contract.import_list() == combined(self.import_list(), other.import_list())
                    && contract.export_list() == combined(self.export_list(), other.export_list()),
                Err(message) => self@.merge(other@) is None
                    && message@ == self.conflict_report(other),
            },
    {
        proof {
            use_type_invariant(self);
            use_type_invariant(&other);
            lemma_agrees_iff_no_clash(self.import_list(), other.import_list());
            lemma_agrees_iff_no_clash(self.export_list(), other.export_list());
            let imports = other.import_list();
            let exports = other.export_list();
            assert(imports.take(imports.len() as int) =~= imports);
            assert(exports.take(exports.len() as int) =~= exports);
        }
        let imports = match absorb_imports(&self.imports, other.imports) {
            Ok(list) => list,
            Err(message) => {
                return Err(message);
            },
        };
        let exports = match absorb_exports(&self.exports, other.exports) {
            Ok(list) => list,
            Err(message) => {
                return Err(message);
            },
        };
        Ok(Contract { imports, exports })
    }
}

impl Clone for Contract {
    fn clone(&self) -> (copy: Self)
        ensures
            copy.import_list() == self.import_list(),
            copy.export_list() == self.export_list(),
    {
        proof {
            use_type_invariant(self);
        }
        let imports = self.imports.clone();
        let exports = self.exports.clone();
        assert(import_views(imports@) =~= import_views(self.imports@));
        assert(export_views(exports@) =~= export_views(self.exports@));
        Contract { imports, exports }
    }
}

impl PartialEq for Contract {
    /// Two contracts are equal when they hold the same imports and the same
    /// exports under the same keys; the order in which they hold them does not
    /// count.
    fn eq(&self, other: &Self) -> (equal: bool) {
        proof {
            use_type_invariant(self);
            use_type_invariant(other);
        }
        same_imports(&self.imports, &other.imports) && same_exports(&self.exports, &other.exports)
    }
}

impl PartialEqSpecImpl for Contract {
    open spec fn obeys_eq_spec() -> bool {
        true
    }

    open spec fn eq_spec(&self, other: &Self) -> bool {
        self@ == other@
    }
}

impl Default for Contract {
    /// A contract without bindings.
    fn default() -> (contract: Self)
        ensures
            contract.import_list() == Seq::<ImportView>::empty(),
            contract.export_list() == Seq::<ExportView>::empty(),
    {
        Contract::new()
    }
}

} // verus!
