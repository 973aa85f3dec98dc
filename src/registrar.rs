use vstd::prelude::*;

use crate::document::{
    at_most_once, lemma_set_entry_single,
    entries_view, get_entry, items_view, lemma_entries_view, lemma_items_view, lemma_restore_entry, lemma_set_entry_at,
    lemma_set_entry_get, lemma_set_entry_idempotent,
    set_entry, set_key, take_entry, Item, Tree,
};
use crate::error::{RegistrationError, Section};

verus! {

/// The dependency entry of a unit: a table whose one key `path` points at the unit's directory.
pub open spec fn dependency_entry(name: Seq<char>) -> Tree {
    Tree::Table(seq![("path"@, Tree::Text("../"@ + name))])
}

/// The entries of the manifest's `dependencies` table, where the document has one.
pub open spec fn dependencies_of(doc: Tree) -> Option<Seq<(Seq<char>, Tree)>> {
    match doc {
        Tree::Table(top) => match get_entry(top, "dependencies"@) {
            Some(Tree::Table(deps)) => Some(deps),
            _ => None,
        },
        _ => None,
    }
}

/// The manifest after registering `name`: its dependency entry set under the key `name`
/// of the `dependencies` table, everything else as it was.
pub open spec fn with_dependency(doc: Tree, name: Seq<char>) -> Tree {
    match doc {
        Tree::Table(top) => Tree::Table(
            set_entry(
                top,
                "dependencies"@,
                Tree::Table(set_entry(dependencies_of(doc).unwrap(), name, dependency_entry(name))),
            ),
        ),
        _ => doc,
    }
}

/// The entries of the binding configuration's `parse` table, where the document has one.
pub open spec fn parse_section_of(doc: Tree) -> Option<Seq<(Seq<char>, Tree)>> {
    match doc {
        Tree::Table(top) => match get_entry(top, "parse"@) {
            Some(Tree::Table(parse)) => Some(parse),
            _ => None,
        },
        _ => None,
    }
}

/// The elements of the `parse.extra_bindings` array, where the document has one.
pub open spec fn bindings_of(doc: Tree) -> Option<Seq<Tree>> {
    match parse_section_of(doc) {
        Some(parse) => match get_entry(parse, "extra_bindings"@) {
            Some(Tree::Array(a)) => Some(a),
            _ => None,
        },
        None => None,
    }
}

/// The binding configuration after registering `name`: `name` appended to
/// `parse.extra_bindings`, everything else as it was.
pub open spec fn with_binding(doc: Tree, name: Seq<char>) -> Tree {
    match doc {
        Tree::Table(top) => Tree::Table(
            set_entry(
                top,
                "parse"@,
                Tree::Table(
                    set_entry(
                        parse_section_of(doc).unwrap(),
                        "extra_bindings"@,
                        Tree::Array(bindings_of(doc).unwrap().push(Tree::Text(name))),
                    ),
                ),
            ),
        ),
        _ => doc,
    }
}

/// Builds the dependency entry of the unit `name`.
fn dependency_item(name: &str) -> (r: Item)
    ensures
        r@ == dependency_entry(name@),
{
    let mut path = String::from_str("../");
    path.append(name);
    let mut entry: Vec<(String, Item)> = Vec::new();
    entry.push((String::from_str("path"), Item::Text(path)));
    proof {
        lemma_entries_view(entry@);
        assert(entries_view(entry@) =~= seq![("path"@, Tree::Text("../"@ + name@))]);
    }
    Item::Table(entry)
}

/// Registers `name` in the dependency manifest: under the key `name` of the `dependencies`
/// table it sets a table whose `path` is `"../" + name`, overwriting an entry already there.
/// Without a `dependencies` table the document is left as it was and a `SchemaError` comes back.
pub fn register_dependency(doc: &mut Item, name: &str) -> (r: Result<(), RegistrationError>)
    ensures
        r.is_ok() <==> dependencies_of(old(doc)@).is_some(),
        r.is_ok() ==> final(doc)@ == with_dependency(old(doc)@, name@),
        r.is_err() ==> final(doc)@ == old(doc)@ && r == Err::<(), _>(
            RegistrationError::SchemaError(Section::Dependencies),
        ),
{
    let section = String::from_str("dependencies");
    match doc {
        Item::Table(top) => {
            let ghost top0 = top@;
            match take_entry(top, &section) {
                Some((i, key, Item::Table(mut deps))) => {
                    set_key(&mut deps, name.to_owned(), dependency_item(name));
                    let ghost new_value = Item::Table(deps);
                    top.insert(i, (key, Item::Table(deps)));
                    proof {
                        assert(top@ =~= top0.update(i as int, (top0[i as int].0, new_value)));
                        lemma_set_entry_at(top0, i as int, new_value);
                    }
                    Ok(())
                },
                Some((i, key, other)) => {
                    top.insert(i, (key, other));
                    assert(top@ =~= top0);
                    Err(RegistrationError::SchemaError(Section::Dependencies))
                },
                None => Err(RegistrationError::SchemaError(Section::Dependencies)),
            }
        },
        _ => Err(RegistrationError::SchemaError(Section::Dependencies)),
    }
}

/// Appends the string `name` to the array under `key` of a table; returns whether the table
/// has such an array. Without one the table is left as it was.
fn append_to_array(entries: &mut Vec<(String, Item)>, key: &String, name: &str) -> (r: bool)
    ensures
        r <==> get_entry(entries_view(old(entries)@), key@) matches Some(Tree::Array(_)),
        r ==> entries_view(final(entries)@) == set_entry(
            entries_view(old(entries)@),
            key@,
            Tree::Array(get_entry(entries_view(old(entries)@), key@)->Some_0->Array_0.push(
                Tree::Text(name@),
            )),
        ),
        !r ==> entries_view(final(entries)@) == entries_view(old(entries)@),
{
    let ghost e0 = entries@;
    match take_entry(entries, key) {
        Some((j, akey, Item::Array(mut items))) => {
            let ghost b0 = items@;
            items.push(Item::Text(name.to_owned()));
            proof {
                lemma_items_view(b0);
                lemma_items_view(items@);
                assert(items_view(items@) =~= items_view(b0).push(Tree::Text(name@)));
            }
            let ghost new_array = Item::Array(items);
            entries.insert(j, (akey, Item::Array(items)));
            proof {
                assert(entries@ =~= e0.update(j as int, (e0[j as int].0, new_array)));
                lemma_set_entry_at(e0, j as int, new_array);
            }
            true
        },
        Some((j, akey, other)) => {
            entries.insert(j, (akey, other));
            assert(entries@ =~= e0);
            false
        },
        None => false,
    }
}

/// Registers `name` in the binding configuration: appends it as a string to the
/// `parse.extra_bindings` array, also when the array holds it already.
/// Without that array the document is left as it was and a `SchemaError` comes back.
pub fn register_binding(doc: &mut Item, name: &str) -> (r: Result<(), RegistrationError>)
    ensures
        r.is_ok() <==> bindings_of(old(doc)@).is_some(),
        r.is_ok() ==> final(doc)@ == with_binding(old(doc)@, name@),
        r.is_err() ==> final(doc)@ == old(doc)@ && r == Err::<(), _>(
            RegistrationError::SchemaError(Section::ExtraBindings),
        ),
{
    let section = String::from_str("parse");
    let array_key = String::from_str("extra_bindings");
    match doc {
        Item::Table(top) => {
            let ghost top0 = top@;
            match take_entry(top, &section) {
                Some((i, key, Item::Table(mut parse))) => {
                    let appended = append_to_array(&mut parse, &array_key, name);
                    let ghost new_parse = Item::Table(parse);
                    top.insert(i, (key, Item::Table(parse)));
                    assert(top@ =~= top0.update(i as int, (top0[i as int].0, new_parse)));
                    if appended {
                        proof {
                            lemma_set_entry_at(top0, i as int, new_parse);
                        }
                        Ok(())
                    } else {
                        proof {
                            lemma_restore_entry(top0, i as int, new_parse);
                        }
                        Err(RegistrationError::SchemaError(Section::ExtraBindings))
                    }
                },
                Some((i, key, other)) => {
                    top.insert(i, (key, other));
                    assert(top@ =~= top0);
                    Err(RegistrationError::SchemaError(Section::ExtraBindings))
                },
                None => Err(RegistrationError::SchemaError(Section::ExtraBindings)),
            }
        },
        _ => Err(RegistrationError::SchemaError(Section::ExtraBindings)),
    }
}

/// Registering a unit in the manifest twice gives the manifest of registering it once:
/// the dependency is keyed by the unit's name, so the second run overwrites the one entry.
pub proof fn lemma_dependency_idempotent(doc: Tree, name: Seq<char>)
    requires
        dependencies_of(doc).is_some(),
    ensures
        dependencies_of(with_dependency(doc, name)) == Some(
            set_entry(dependencies_of(doc).unwrap(), name, dependency_entry(name)),
        ),
        get_entry(dependencies_of(with_dependency(doc, name)).unwrap(), name) == Some(
            dependency_entry(name),
        ),
        with_dependency(with_dependency(doc, name), name) == with_dependency(doc, name),
{
    let top = doc->Table_0;
    let deps = dependencies_of(doc).unwrap();
    let new_deps = set_entry(deps, name, dependency_entry(name));
    lemma_set_entry_get(top, "dependencies"@, Tree::Table(new_deps));
    lemma_set_entry_get(deps, name, dependency_entry(name));
    lemma_set_entry_idempotent(deps, name, dependency_entry(name));
    lemma_set_entry_idempotent(top, "dependencies"@, Tree::Table(new_deps));
}

/// After registering a unit, the binding array is the old one with the unit's name appended.
pub proof fn lemma_binding_appended(doc: Tree, name: Seq<char>)
    requires
        bindings_of(doc).is_some(),
    ensures
        bindings_of(with_binding(doc, name)) == Some(
            bindings_of(doc).unwrap().push(Tree::Text(name)),
        ),
{
    let top = doc->Table_0;
    let parse = parse_section_of(doc).unwrap();
    let once = bindings_of(doc).unwrap().push(Tree::Text(name));
    let parse1 = set_entry(parse, "extra_bindings"@, Tree::Array(once));
    lemma_set_entry_get(parse, "extra_bindings"@, Tree::Array(once));
    lemma_set_entry_get(top, "parse"@, Tree::Table(parse1));
}

/// Registering a unit in the binding configuration twice appends its name twice:
/// the array keeps both copies.
pub proof fn lemma_binding_appends_twice(doc: Tree, name: Seq<char>)
    requires
        bindings_of(doc).is_some(),
    ensures
        bindings_of(with_binding(with_binding(doc, name), name)) == Some(
            bindings_of(doc).unwrap().push(Tree::Text(name)).push(Tree::Text(name)),
        ),
{
    lemma_binding_appended(doc, name);
    lemma_binding_appended(with_binding(doc, name), name);
}

/// Registering `name` keeps the manifest's dependency under that key single: one entry
/// holds it, and when no two entries shared the key before, none do after.
pub proof fn lemma_dependency_single(doc: Tree, name: Seq<char>)
    requires
        dependencies_of(doc).is_some(),
    ensures
        get_entry(dependencies_of(with_dependency(doc, name)).unwrap(), name) == Some(
            dependency_entry(name),
        ),
        at_most_once(dependencies_of(doc).unwrap(), name) ==> at_most_once(
            dependencies_of(with_dependency(doc, name)).unwrap(),
            name,
        ),
{
    lemma_dependency_idempotent(doc, name);
    if at_most_once(dependencies_of(doc).unwrap(), name) {
        lemma_set_entry_single(dependencies_of(doc).unwrap(), name, dependency_entry(name));
    }
}

} // verus!
