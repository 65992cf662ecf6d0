use std::cell::Cell;
use std::rc::Rc;

use lt_quiz::builder::{array_push, Builder, CommandBuilder, Table};
use lt_quiz::descriptor::{CommandDescriptor, Property, TypeTag};
use lt_quiz::phrase::phrase_of;

fn bind(state: u32, handler: u32) -> (u32, u32) {
    (state, handler)
}

fn build_n(n: u32) -> Table<(u32, u32)> {
    let mut b = CommandBuilder::with_state(7u32);
    for k in 0..n {
        let name = format!("crate::commands::cmd_{k}");
        b = b.command(Builder::new(k, &name), bind);
    }
    b.build()
}

#[test]
fn tables_have_one_entry_per_append_in_order() {
    for n in 0..=8u32 {
        let table = build_n(n);
        assert_eq!(table.len(), n as usize);
        assert_eq!(table.commands().len(), n as usize);
        for k in 0..n {
            let (phrase, handler) = table.entry(k as usize);
            assert_eq!(phrase, format!("cmd.{k}"));
            assert_eq!(*handler, (7, k));
            assert_eq!(table.commands()[k as usize].phrase(), phrase);
        }
    }
}

struct Marker {
    id: u32,
    drops: Rc<Cell<u32>>,
}

impl Drop for Marker {
    fn drop(&mut self) {
        let seen = self.drops.get();
        assert!(seen < 100, "dropped too often");
        self.drops.set(seen + 1);
    }
}

#[test]
fn growth_moves_every_marker_once() {
    let drops = Rc::new(Cell::new(0u32));
    let mut v: Vec<Marker> = Vec::new();
    for id in 0..5u32 {
        v = array_push(v, Marker { id, drops: drops.clone() });
        assert_eq!(drops.get(), 0);
        assert_eq!(v.len(), id as usize + 1);
    }
    let ids: Vec<u32> = v.iter().map(|m| m.id).collect();
    assert_eq!(ids, vec![0, 1, 2, 3, 4]);
    drop(v);
    assert_eq!(drops.get(), 5);
}

#[test]
fn phrase_derivation() {
    assert_eq!(phrase_of("export"), "export");
    assert_eq!(phrase_of("questions_list"), "questions.list");
    assert_eq!(phrase_of("questions_about"), "questions.about");
    assert_eq!(phrase_of("crate::commands::questions_list"), "questions.list");
    assert_eq!(phrase_of(""), "");
    assert_eq!(phrase_of("a::"), "");
}

#[test]
fn declarations_touch_only_the_new_command() {
    let b = CommandBuilder::with_state(1u32)
        .command(Builder::new(0u32, "first").arg("path", TypeTag::Path), bind)
        .command(Builder::new(1u32, "second_one"), bind);
    let before: Vec<CommandDescriptor> = b.commands().clone();
    let third = Builder::new(2u32, "third")
        .arg("file", TypeTag::String)
        .properties([Property { name: "has_tags", hint: "tags", tag: TypeTag::String }]);
    let b = b.command(third, bind);
    assert_eq!(&b.commands()[..2], &before[..]);
    let last = &b.commands()[2];
    assert_eq!(last.phrase(), "third");
    assert_eq!(last.subjects().len(), 1);
    assert_eq!(last.subjects()[0].hint, "file");
    assert!(!last.subjects()[0].optional);
    let p = last.property("has_tags").unwrap();
    assert_eq!(p.hint, "tags");
    assert!(p.optional);
    assert!(b.commands()[0].property("has_tags").is_none());
}

#[test]
fn later_property_declaration_replaces_earlier() {
    let b = Builder::new((), "questions").properties([
        Property { name: "has_tags", hint: "one", tag: TypeTag::String },
        Property { name: "no_tags", hint: "two", tag: TypeTag::String },
        Property { name: "has_tags", hint: "three", tag: TypeTag::Bool },
    ]);
    let t = CommandBuilder::with_state(()).command(b, |_: (), h: ()| h).build();
    let c = &t.commands()[0];
    let p = c.property("has_tags").unwrap();
    assert_eq!(p.hint, "three");
    assert_eq!(p.kind, TypeTag::Bool);
    assert_eq!(c.property("no_tags").unwrap().hint, "two");
    assert!(c.property("other").is_none());
}

#[test]
fn zero_commands_give_an_empty_table() {
    let t: Table<()> = CommandBuilder::<(), ()>::with_state(()).build();
    assert_eq!(t.len(), 0);
    assert!(t.commands().is_empty());
    assert_eq!(t.find("export"), None);
}

#[test]
fn export_with_one_path_argument() {
    let t = CommandBuilder::with_state(0u32)
        .command(Builder::new(9u32, "export").arg("path", TypeTag::Path), bind)
        .build();
    assert_eq!(t.len(), 1);
    assert_eq!(t.find("export"), Some(0));
    let c = &t.commands()[0];
    assert_eq!(c.phrase(), "export");
    assert_eq!(c.subjects().len(), 1);
    assert_eq!(c.subjects()[0].hint, "path");
    assert_eq!(c.subjects()[0].kind, TypeTag::Path);
}

#[test]
fn duplicate_phrases_are_kept() {
    let t = CommandBuilder::with_state(0u32)
        .command(Builder::new(1u32, "a::questions_list"), bind)
        .command(Builder::new(2u32, "b::questions_list"), bind)
        .build();
    assert_eq!(t.len(), 2);
    assert_eq!(t.entry(0).0, "questions.list");
    assert_eq!(t.entry(1).0, "questions.list");
    let found = t.find("questions.list").unwrap();
    assert!(found < 2);
    assert_eq!(t.find("questions"), None);
}
