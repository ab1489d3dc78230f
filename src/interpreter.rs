use vstd::prelude::*;
use vstd::string::StringSliceAdditionalSpecFns;

use crate::text::{string_of, trim_of};

use self::color::{color_items, color_of, ColorInterpreter};
use self::filepath::{path_items, path_target, FilePathInterpreter, PathFacts};
use self::hex::{hex_items, HexInterpreter};
use self::uuid::{uuid_items, uuid_text_bytes, uuid_unix_time, UuidInterpreter};

pub mod color;
pub mod filepath;
pub mod hex;
pub mod uuid;

verus! {

/// What an item shows: its label, its value and an optional RGBA swatch.
pub type ItemView = (Seq<char>, Seq<char>, Option<[u8; 4]>);

/// A single interpreted field to display.
pub struct InterpretItem {
    pub label: String,
    pub value: String,
    /// RGBA color for a swatch preview, where the item has one.
    pub color: Option<[u8; 4]>,
}

impl View for InterpretItem {
    type V = ItemView;

    open spec fn view(&self) -> ItemView {
        (self.label@, self.value@, self.color)
    }
}

impl InterpretItem {
    pub fn text(label: &str, value: String) -> (r: Self)
        ensures
            r@ == (label@, value@, None::<[u8; 4]>),
    {
        InterpretItem { label: string_of(label), value, color: None }
    }

    pub fn with_color(label: &str, value: String, rgba: [u8; 4]) -> (r: Self)
        ensures
            r@ == (label@, value@, Some(rgba)),
    {
        InterpretItem { label: string_of(label), value, color: Some(rgba) }
    }
}

/// What a list of items shows, item by item.
pub open spec fn item_views(items: Seq<InterpretItem>) -> Seq<ItemView> {
    items.map_values(|i: InterpretItem| i@)
}

/// The result of one interpreter run: the items to display, in order.
pub struct InterpretResult {
    pub items: Vec<InterpretItem>,
}

impl View for InterpretResult {
    type V = Seq<ItemView>;

    open spec fn view(&self) -> Seq<ItemView> {
        item_views(self.items@)
    }
}

impl InterpretResult {
    pub fn new(items: Vec<InterpretItem>) -> (r: Self)
        ensures
            r@ == item_views(items@),
    {
        InterpretResult { items }
    }
}

/// The interpreters, a closed set; each one either describes a text or
/// declines it.
pub enum Interpreter {
    Hex(HexInterpreter),
    Uuid(UuidInterpreter),
    Color(ColorInterpreter),
    FilePath(FilePathInterpreter),
}

/// The display name of each interpreter.
pub open spec fn interpreter_name(i: Interpreter) -> Seq<char> {
    match i {
        Interpreter::Hex(_) => "Hex Dump"@,
        Interpreter::Uuid(_) => "UUID"@,
        Interpreter::Color(_) => "Color Code"@,
        Interpreter::FilePath(_) => "File Path"@,
    }
}

/// What an interpreter gives for `content`; the path interpreter describes
/// the facts gathered for the path that `content` names, and declines a
/// text that names none.
pub open spec fn interpretation(
    i: Interpreter,
    content: Seq<char>,
    bytes: Seq<u8>,
    path: Option<PathFacts>,
) -> Option<Seq<ItemView>> {
    match i {
        Interpreter::Hex(_) => Some(hex_items(bytes, content.len())),
        Interpreter::Uuid(_) => match uuid_text_bytes(trim_of(content)) {
            Some(b) => Some(uuid_items(b, uuid_unix_time(b))),
            None => None,
        },
        Interpreter::Color(_) => match color_of(trim_of(content)) {
            Some((r, g, b, a)) => Some(color_items(r, g, b, a)),
            None => None,
        },
        Interpreter::FilePath(_) => match path {
            Some(f) => if path_target(trim_of(content), None) is Some {
                Some(path_items(f))
            } else {
                None
            },
            None => None,
        },
    }
}

impl Interpreter {
    pub fn name(&self) -> (r: &'static str)
        ensures
            r@ == interpreter_name(*self),
    {
        match self {
            Interpreter::Hex(h) => h.name(),
            Interpreter::Uuid(u) => u.name(),
            Interpreter::Color(c) => c.name(),
            Interpreter::FilePath(f) => f.name(),
        }
    }

    /// Runs this interpreter on `content`. `path` holds what the file system
    /// says of the path that `content` names, or `None` where it names none.
    pub fn interpret(&self, content: &str, path: Option<&PathFacts>) -> (r: Option<InterpretResult>)
        ensures
            match interpretation(
                *self,
                content@,
                content.spec_bytes(),
                match path {
                    Some(f) => Some(*f),
                    None => None,
                },
            ) {
                Some(items) => r matches Some(res) && res@ == items,
                None => r is None,
            },
    {
        match self {
            Interpreter::Hex(h) => h.interpret(content),
            Interpreter::Uuid(u) => u.interpret(content),
            Interpreter::Color(c) => c.interpret(content),
            Interpreter::FilePath(_) => match path {
                Some(f) => if FilePathInterpreter::applies(content) {
                    Some(FilePathInterpreter::describe(f))
                } else {
                    None
                },
                None => None,
            },
        }
    }
}

/// All interpreters, in display order.
pub fn get_interpreters() -> (r: Vec<Interpreter>)
    ensures
        r@ == get_interpreters_spec(),
{
    let r = vec![
        Interpreter::Hex(HexInterpreter),
        Interpreter::Uuid(UuidInterpreter),
        Interpreter::Color(ColorInterpreter),
        Interpreter::FilePath(FilePathInterpreter),
    ];
    assert(r@ =~= get_interpreters_spec());
    r
}

/// Every interpreter, in display order, with what it gave for `content`;
/// one that declines is listed with `None`.
pub fn interpret_all(content: &str, path: Option<&PathFacts>) -> (r: Vec<
    (&'static str, Option<InterpretResult>),
>)
    ensures
        r@.len() == 4,
        forall|k: int|
            0 <= k < 4 ==> {
                let i = get_interpreters_spec()[k];
                &&& (#[trigger] r@[k]).0@ == interpreter_name(i)
                &&& match interpretation(
                    i,
                    content@,
                    content.spec_bytes(),
                    match path {
                        Some(f) => Some(*f),
                        None => None,
                    },
                ) {
                    Some(items) => r@[k].1 matches Some(res) && res@ == items,
                    None => r@[k].1 is None,
                }
            },
{
    let all = get_interpreters();
    let mut out: Vec<(&'static str, Option<InterpretResult>)> = Vec::new();
    let mut k: usize = 0;
    while k < all.len()
        invariant
            all@ == get_interpreters_spec(),
            k <= 4,
            out@.len() == k,
            forall|j: int|
                0 <= j < k ==> {
                    let i = get_interpreters_spec()[j];
                    &&& (#[trigger] out@[j]).0@ == interpreter_name(i)
                    &&& match interpretation(
                        i,
                        content@,
                        content.spec_bytes(),
                        match path {
                            Some(f) => Some(*f),
                            None => None,
                        },
                    ) {
                        Some(items) => out@[j].1 matches Some(res) && res@ == items,
                        None => out@[j].1 is None,
                    }
                },
        decreases 4 - k,
    {
        let i = &all[k];
        out.push((i.name(), i.interpret(content, path)));
        k += 1;
    }
    out
}

/// The interpreters in display order.
pub open spec fn get_interpreters_spec() -> Seq<Interpreter> {
    seq![
        Interpreter::Hex(HexInterpreter),
        Interpreter::Uuid(UuidInterpreter),
        Interpreter::Color(ColorInterpreter),
        Interpreter::FilePath(FilePathInterpreter),
    ]
}

} // verus!
