use wasm_contract::contract::Contract;
use wasm_contract::export::Export;
use wasm_contract::import::Import;
use wasm_contract::text::{
    export_conflict_message, import_conflict_message, render_func_export, render_func_import,
    render_global_export, render_global_import, render_type_list, variant_name,
};
use wasm_contract::wasm_type::WasmType;

fn sample_imports() -> Vec<Import> {
    vec![
        Import::Func {
            namespace: "env".to_string(),
            name: "plus_one".to_string(),
            params: vec![WasmType::I32],
            result: vec![WasmType::I32],
        },
        Import::Func {
            namespace: "".to_string(),
            name: "nothing".to_string(),
            params: vec![],
            result: vec![],
        },
        Import::Func {
            namespace: "a \"quoted\" space".to_string(),
            name: "back\\slash\nnew\tline 'single' \u{7f} \u{e9} \u{1f600} \0".to_string(),
            params: vec![WasmType::I32, WasmType::I64, WasmType::F32, WasmType::F64],
            result: vec![WasmType::F64, WasmType::F32],
        },
        Import::Global {
            namespace: "env".to_string(),
            name: "counter".to_string(),
            var_type: WasmType::I64,
        },
        Import::Global {
            namespace: "\u{301}combining".to_string(),
            name: "\r".to_string(),
            var_type: WasmType::F32,
        },
    ]
}

fn sample_exports() -> Vec<Export> {
    vec![
        Export::Func { name: "empty_bank_account".to_string(), params: vec![], result: vec![] },
        Export::Func {
            name: "with \"quotes\" and \\".to_string(),
            params: vec![WasmType::F32, WasmType::I32],
            result: vec![WasmType::I64],
        },
        Export::Global { name: "balance".to_string(), var_type: WasmType::F64 },
        Export::Global { name: "\n".to_string(), var_type: WasmType::I32 },
    ]
}

#[test]
fn mnemonics_are_lowercase() {
    assert_eq!(WasmType::I32.to_string(), "i32");
    assert_eq!(WasmType::I64.to_string(), "i64");
    assert_eq!(WasmType::F32.to_string(), "f32");
    assert_eq!(WasmType::F64.to_string(), "f64");
}

#[test]
fn variant_names_are_those_of_the_variants() {
    for t in [WasmType::I32, WasmType::I64, WasmType::F32, WasmType::F64] {
        assert_eq!(variant_name(t), format!("{:?}", t));
    }
    assert_eq!(variant_name(WasmType::F32), "F32");
}

#[test]
fn import_keys_are_namespace_and_name() {
    assert_eq!(Import::format_key("env", "plus_one"), ("env".to_string(), "plus_one".to_string()));
    assert_eq!(Import::format_key("", ""), (String::new(), String::new()));
    for import in sample_imports() {
        let key = import.get_key();
        assert_eq!(&key.0, import.namespace());
        assert_eq!(&key.1, import.name());
    }
    let global = Import::Global {
        namespace: "host".to_string(),
        name: "limit".to_string(),
        var_type: WasmType::I32,
    };
    assert_eq!(global.get_key(), Import::format_key("host", "limit"));
}

#[test]
fn export_keys_are_names() {
    assert_eq!(Export::format_key("run"), "run".to_string());
    for export in sample_exports() {
        assert_eq!(&export.get_key(), export.name());
    }
    let func = Export::Func { name: "run".to_string(), params: vec![WasmType::I32], result: vec![] };
    let global = Export::Global { name: "run".to_string(), var_type: WasmType::I32 };
    assert_eq!(func.get_key(), global.get_key());
}

#[test]
fn equality_is_structural() {
    let imports = sample_imports();
    for (i, a) in imports.iter().enumerate() {
        for (j, b) in imports.iter().enumerate() {
            assert_eq!(a == b, i == j);
        }
        assert_eq!(a, &a.clone());
    }
    let exports = sample_exports();
    for (i, a) in exports.iter().enumerate() {
        for (j, b) in exports.iter().enumerate() {
            assert_eq!(a == b, i == j);
        }
        assert_eq!(a, &a.clone());
    }
    let shorter = Import::Func {
        namespace: "env".to_string(),
        name: "plus_one".to_string(),
        params: vec![WasmType::I32],
        result: vec![],
    };
    assert_ne!(imports[0], shorter);
    let other_type = Import::Global {
        namespace: "env".to_string(),
        name: "counter".to_string(),
        var_type: WasmType::I32,
    };
    assert_ne!(imports[3], other_type);
}

#[test]
fn type_lists_are_written_in_brackets() {
    assert_eq!(render_type_list(&vec![]), "[]");
    assert_eq!(render_type_list(&vec![WasmType::I32]), "[I32]");
    assert_eq!(render_type_list(&vec![WasmType::I32, WasmType::I64]), "[I32, I64]");
    assert_eq!(
        render_type_list(&vec![WasmType::F64, WasmType::F32, WasmType::I64, WasmType::I32]),
        "[F64, F32, I64, I32]"
    );
}

#[test]
fn definitions_are_written_from_their_parts() {
    assert_eq!(
        render_func_import("NS", "NAME", &vec![WasmType::I32], &vec![]),
        "Func { namespace: NS, name: NAME, params: [I32], result: [] }"
    );
    assert_eq!(
        render_global_import("NS", "NAME", WasmType::F64),
        "Global { namespace: NS, name: NAME, var_type: F64 }"
    );
    assert_eq!(
        render_func_export("NAME", &vec![], &vec![WasmType::I64, WasmType::I64]),
        "Func { name: NAME, params: [], result: [I64, I64] }"
    );
    assert_eq!(render_global_export("NAME", WasmType::I32), "Global { name: NAME, var_type: I32 }");
}

#[test]
fn rendering_quotes_the_strings() {
    let import = Import::Func {
        namespace: "env".to_string(),
        name: "plus_one".to_string(),
        params: vec![WasmType::I32],
        result: vec![WasmType::I32],
    };
    assert_eq!(
        import.render(),
        "Func { namespace: \"env\", name: \"plus_one\", params: [I32], result: [I32] }"
    );
    let export = Export::Global { name: "say \"hi\"".to_string(), var_type: WasmType::F32 };
    assert_eq!(export.render(), "Global { name: \"say \\\"hi\\\"\", var_type: F32 }");
}

#[test]
fn rendering_is_the_debug_text() {
    for import in sample_imports() {
        assert_eq!(import.render(), format!("{:?}", import));
    }
    for export in sample_exports() {
        assert_eq!(export.render(), format!("{:?}", export));
    }
}

#[test]
fn conflict_messages_are_written_from_their_parts() {
    assert_eq!(
        import_conflict_message("env", "plus_one", "STORED", "INCOMING"),
        "Conflict detected: the import \"env\" \"plus_one\" was found but the definitions were different: STORED INCOMING"
    );
    assert_eq!(
        export_conflict_message("run", "STORED", "INCOMING"),
        "Conflict detected: the key run was found in exports but the definitions were different: STORED INCOMING"
    );
    assert_eq!(
        import_conflict_message("", "", "", ""),
        "Conflict detected: the import \"\" \"\" was found but the definitions were different:  "
    );
}

#[test]
fn conflict_messages_give_key_and_both_definitions() {
    let imports = sample_imports();
    let stored = &imports[2];
    let incoming = Import::Global {
        namespace: stored.namespace().clone(),
        name: stored.name().clone(),
        var_type: WasmType::I32,
    };
    let mut base = Contract::new();
    base.insert_import(stored.clone());
    let mut other = Contract::new();
    other.insert_import(incoming.clone());
    let key = stored.get_key();
    assert_eq!(
        base.merge(other).unwrap_err(),
        format!(
            "Conflict detected: the import \"{}\" \"{}\" was found but the definitions were different: {:?} {:?}",
            &key.0, &key.1, stored, incoming
        )
    );

    let exports = sample_exports();
    let stored = &exports[1];
    let incoming = Export::Global { name: stored.name().clone(), var_type: WasmType::I32 };
    let mut base = Contract::new();
    base.insert_export(stored.clone());
    let mut other = Contract::new();
    other.insert_export(incoming.clone());
    assert_eq!(
        base.merge(other).unwrap_err(),
        format!(
            "Conflict detected: the key {} was found in exports but the definitions were different: {:?} {:?}",
            stored.get_key(),
            stored,
            incoming
        )
    );
}

#[test]
fn inserting_under_a_held_key_replaces() {
    let first = Import::Func {
        namespace: "env".to_string(),
        name: "f".to_string(),
        params: vec![],
        result: vec![],
    };
    let second = Import::Func {
        namespace: "env".to_string(),
        name: "g".to_string(),
        params: vec![],
        result: vec![],
    };
    let third = Import::Func {
        namespace: "env".to_string(),
        name: "h".to_string(),
        params: vec![],
        result: vec![],
    };
    let replacement = Import::Global {
        namespace: "env".to_string(),
        name: "f".to_string(),
        var_type: WasmType::I64,
    };
    let mut contract = Contract::new();
    assert_eq!(contract.insert_import(first.clone()), None);
    assert_eq!(contract.insert_import(second.clone()), None);
    assert_eq!(contract.insert_import(third.clone()), None);
    assert_eq!(contract.insert_import(replacement.clone()), Some(first));
    assert_eq!(contract.import_count(), 3);
    assert_eq!(contract.imports(), &vec![replacement.clone(), second, third]);
    assert_eq!(contract.get_import(&Import::format_key("env", "f")), Some(&replacement));
    assert_eq!(contract.insert_import(replacement.clone()), Some(replacement));
    assert_eq!(contract.export_count(), 0);

    let run = Export::Func { name: "run".to_string(), params: vec![], result: vec![] };
    let stop = Export::Func { name: "stop".to_string(), params: vec![], result: vec![] };
    let run_global = Export::Global { name: "run".to_string(), var_type: WasmType::F32 };
    assert_eq!(contract.insert_export(run.clone()), None);
    assert_eq!(contract.insert_export(stop.clone()), None);
    assert_eq!(contract.insert_export(run_global.clone()), Some(run));
    assert_eq!(contract.exports(), &vec![run_global.clone(), stop]);
    assert_eq!(contract.get_export(&Export::format_key("run")), Some(&run_global));
    assert_eq!(contract.get_export(&Export::format_key("walk")), None);
    assert_eq!(contract.import_count(), 3);
}

#[test]
fn contracts_are_equal_whatever_the_order() {
    let imports = sample_imports();
    let exports = sample_exports();
    let mut forward = Contract::new();
    for import in imports.iter() {
        forward.insert_import(import.clone());
    }
    for export in exports.iter() {
        forward.insert_export(export.clone());
    }
    let mut backward = Contract::new();
    for export in exports.iter().rev() {
        backward.insert_export(export.clone());
    }
    for import in imports.iter().rev() {
        backward.insert_import(import.clone());
    }
    assert_eq!(forward, backward);
    assert_ne!(forward.imports(), backward.imports());
    assert_eq!(forward, forward.clone());

    let mut fewer = Contract::new();
    for import in imports.iter().skip(1) {
        fewer.insert_import(import.clone());
    }
    for export in exports.iter() {
        fewer.insert_export(export.clone());
    }
    assert_ne!(forward, fewer);
    assert_ne!(fewer, forward);

    let mut changed = forward.clone();
    changed.insert_export(Export::Global { name: "balance".to_string(), var_type: WasmType::I32 });
    assert_eq!(changed.export_count(), forward.export_count());
    assert_ne!(forward, changed);
}
