//! One frame file: its decomposed name parts, and the planning of renames,
//! copies, moves and deletions of it.

use vstd::prelude::*;
use vstd::string::StrSliceExecFns;
use vstd::string::StringExecFns;

use crate::components::clone_opt_string;
use crate::components::opt_view;
use crate::components::Components;
use crate::components::ComponentsView;
use crate::components::ResolvedComponents;
use crate::components::ResolvedView;
use crate::digits::frame_string_ok;
use crate::digits::lemma_digit_string_canonical;
use crate::digits::lemma_pad_dec_shape;
use crate::digits::lemma_parse_pad_dec;
use crate::digits::pad_dec;
use crate::digits::pad_frame_string;
use crate::digits::parse_dec;
use crate::digits::parse_frame_string;
use crate::operation::FileOperation;
use crate::operation::OperationPlan;
use crate::operation::OpView;
use crate::operation::Planned;

verus! {

/// The abstract value of an [`Item`].
#[verifier::ext_equal]
pub struct ItemView {
    pub prefix: Seq<char>,
    pub frame_string: Seq<char>,
    pub extension: Seq<char>,
    pub delimiter: Option<Seq<char>>,
    pub suffix: Option<Seq<char>>,
    pub directory: Option<Seq<char>>,
}

/// The characters of an optional name part, empty when absent.
pub open spec fn opt_or_empty(o: Option<Seq<char>>) -> Seq<char> {
    match o {
        Some(s) => s,
        None => Seq::<char>::empty(),
    }
}

/// The first of two optional values, falling back to the second.
pub open spec fn or_opt(a: Option<Seq<char>>, b: Option<Seq<char>>) -> Option<Seq<char>> {
    match a {
        Some(s) => Some(s),
        None => b,
    }
}

/// The filename an item formats to:
/// `{prefix}{delimiter?}{frame}{suffix?}.{extension}`.
pub open spec fn filename_view(i: ItemView) -> Seq<char> {
    i.prefix + opt_or_empty(i.delimiter) + i.frame_string + opt_or_empty(i.suffix) + seq!['.']
        + i.extension
}

/// The path an item formats to: `{directory}/{filename}` when a non-empty
/// directory is set, else the bare filename — an absent directory and an
/// empty one join alike, so no separator is ever prepended to a bare name.
pub open spec fn path_view(i: ItemView) -> Seq<char> {
    match i.directory {
        Some(d) => if d.len() == 0 {
            filename_view(i)
        } else {
            d + seq!['/'] + filename_view(i)
        },
        None => filename_view(i),
    }
}

/// A well-formed item: its frame string is a non-empty digit run whose
/// value fits a frame number, and an absent delimiter or suffix is stored
/// as absent, never as an empty string.
pub open spec fn wf_item_view(v: ItemView) -> bool {
    &&& frame_string_ok(v.frame_string)
    &&& match v.delimiter {
        Some(d) => d.len() > 0,
        None => true,
    }
    &&& match v.suffix {
        Some(s) => s.len() > 0,
        None => true,
    }
}

/// The numeric frame of an item value.
pub open spec fn frame_of(v: ItemView) -> nat {
    parse_dec(v.frame_string)
}

/// The resolution of an override against an item's current values: each
/// present override field wins, each absent one keeps the item's value,
/// with an absent delimiter or suffix read as the empty string.
pub open spec fn resolve_view(i: ItemView, c: ComponentsView) -> ResolvedView {
    ResolvedView {
        prefix: match c.prefix {
            Some(p) => p,
            None => i.prefix,
        },
        delimiter: match c.delimiter {
            Some(d) => d,
            None => opt_or_empty(i.delimiter),
        },
        padding: match c.padding {
            Some(p) => p,
            None => i.frame_string.len(),
        },
        suffix: match c.suffix {
            Some(s) => s,
            None => opt_or_empty(i.suffix),
        },
        extension: match c.extension {
            Some(e) => e,
            None => i.extension,
        },
        frame_number: match c.frame_number {
            Some(f) => f,
            None => parse_dec(i.frame_string),
        },
    }
}

/// The item a resolution builds: the frame string is the frame number
/// zero-padded to the resolved width, and an empty delimiter or suffix is
/// normalized back to absent.
pub open spec fn from_resolved_view(r: ResolvedView, dir: Option<Seq<char>>) -> ItemView {
    ItemView {
        prefix: r.prefix,
        frame_string: pad_dec(r.frame_number, r.padding),
        extension: r.extension,
        delimiter: if r.delimiter.len() == 0 {
            None
        } else {
            Some(r.delimiter)
        },
        suffix: if r.suffix.len() == 0 {
            None
        } else {
            Some(r.suffix)
        },
        directory: dir,
    }
}

/// The item that merging `c` onto `i` proposes, placed in `dir` when given,
/// else left in `i`'s own directory.
pub open spec fn apply_view(i: ItemView, c: ComponentsView, dir: Option<Seq<char>>) -> ItemView {
    from_resolved_view(resolve_view(i, c), or_opt(dir, i.directory))
}

/// What a rename of `i` under `c` proposes: the merge, kept in place.
pub open spec fn rename_target(i: ItemView, c: ComponentsView) -> ItemView {
    apply_view(i, c, i.directory)
}

/// The plan a rename emits: nothing when the path is unchanged, else one
/// rename from the old path to the new one.
pub open spec fn item_rename_plan(i: ItemView, c: ComponentsView) -> Seq<OpView> {
    if path_view(rename_target(i, c)) == path_view(i) {
        Seq::<OpView>::empty()
    } else {
        seq![
            OpView::Rename {
                source: path_view(i),
                destination: path_view(rename_target(i, c)),
            },
        ]
    }
}

/// The abstract value of an optional override.
pub open spec fn opt_components_view(c: Option<Components>) -> Option<ComponentsView> {
    match c {
        Some(cc) => Some(cc@),
        None => None,
    }
}

/// What a copy or move of `i` proposes: the merge of `c` when one is given,
/// else the identical item, either way placed in `dir` when given and left
/// in `i`'s own directory otherwise.
pub open spec fn relocate_target(
    i: ItemView,
    c: Option<ComponentsView>,
    dir: Option<Seq<char>>,
) -> ItemView {
    match c {
        Some(cv) => apply_view(i, cv, dir),
        None => ItemView { directory: or_opt(dir, i.directory), ..i },
    }
}

/// A merge always yields a well-formed item.
pub proof fn lemma_apply_wf(i: ItemView, c: ComponentsView, dir: Option<Seq<char>>)
    requires
        resolve_view(i, c).frame_number <= u32::MAX,
    ensures
        wf_item_view(apply_view(i, c, dir)),
        frame_of(apply_view(i, c, dir)) == resolve_view(i, c).frame_number,
{
    let r = resolve_view(i, c);
    lemma_pad_dec_shape(r.frame_number, r.padding);
    lemma_parse_pad_dec(r.frame_number, r.padding);
}

/// One frame file: a value describing the file's decomposed name and
/// optional containing directory, owning no filesystem resource.
#[derive(Debug, Clone, PartialEq, Eq)]
pub struct Item {
    pub prefix: String,
    pub frame_string: String,
    pub extension: String,
    pub delimiter: Option<String>,
    pub suffix: Option<String>,
    pub directory: Option<String>,
}

impl View for Item {
    type V = ItemView;

    open spec fn view(&self) -> ItemView {
        ItemView {
            prefix: self.prefix@,
            frame_string: self.frame_string@,
            extension: self.extension@,
            delimiter: opt_view(self.delimiter),
            suffix: opt_view(self.suffix),
            directory: opt_view(self.directory),
        }
    }
}

impl Item {
    /// Whether the item is well-formed; every item this library builds is.
    pub open spec fn wf(&self) -> bool {
        wf_item_view(self@)
    }

    /// Builds an item from its name parts: the frame string is
    /// `frame_number` zero-padded to a minimum width of `padding`, and an
    /// empty delimiter or suffix is normalized to absent.
    pub fn new(
        prefix: String,
        frame_number: u32,
        padding: usize,
        extension: String,
        delimiter: Option<String>,
        suffix: Option<String>,
        directory: Option<String>,
    ) -> (r: Item)
        ensures
            r.wf(),
            r@ == (ItemView {
                prefix: prefix@,
                frame_string: pad_dec(frame_number as nat, padding as nat),
                extension: extension@,
                delimiter: normalize_opt(opt_view(delimiter)),
                suffix: normalize_opt(opt_view(suffix)),
                directory: opt_view(directory),
            }),
            frame_of(r@) == frame_number as nat,
    {
        let frame_string = pad_frame_string(frame_number, padding);
        let delimiter = normalize_opt_string(delimiter);
        let suffix = normalize_opt_string(suffix);
        let r = Item { prefix, frame_string, extension, delimiter, suffix, directory };
        proof {
            lemma_pad_dec_shape(frame_number as nat, padding as nat);
            lemma_parse_pad_dec(frame_number as nat, padding as nat);
        }
        r
    }

    /// The filename the item formats to:
    /// `{prefix}{delimiter?}{frame}{suffix?}.{extension}`.
    pub fn filename(&self) -> (s: String)
        ensures
            s@ == filename_view(self@),
    {
        let mut s = self.prefix.clone();
        if let Some(d) = &self.delimiter {
            s.append(d.as_str());
        }
        s.append(self.frame_string.as_str());
        if let Some(x) = &self.suffix {
            s.append(x.as_str());
        }
        s.append(".");
        s.append(self.extension.as_str());
        proof {
            reveal_strlit(".");
            assert("."@ =~= seq!['.']);
            assert(s@ =~= filename_view(self@));
        }
        s
    }

    /// The path the item formats to: `{directory}/{filename}` when a
    /// non-empty directory is set, else the bare filename.
    pub fn path(&self) -> (s: String)
        ensures
            s@ == path_view(self@),
    {
        match &self.directory {
            Some(d) => {
                if d.as_str().is_empty() {
                    return self.filename();
                }
                let mut s = d.clone();
                s.append("/");
                let name = self.filename();
                s.append(name.as_str());
                proof {
                    reveal_strlit("/");
                    assert("/"@ =~= seq!['/']);
                    assert(s@ =~= path_view(self@));
                }
                s
            },
            None => self.filename(),
        }
    }

    /// The numeric frame number, read from the frame string.
    pub fn frame_number(&self) -> (n: u32)
        requires
            self.wf(),
        ensures
            n as nat == frame_of(self@),
    {
        parse_frame_string(self.frame_string.as_str())
    }

    /// The padding width, derived from the frame string's length.
    pub fn padding(&self) -> (p: usize)
        ensures
            p as nat == self@.frame_string.len(),
    {
        self.frame_string.as_str().unicode_len()
    }

    /// Whether the item's path exists on disk right now. The result depends
    /// on the filesystem, so nothing is promised of it.
    pub fn exists_on_disk(&self) -> bool {
        let p = self.path();
        crate::operation::path_exists(p.as_str())
    }

    /// Merges an override onto this item's current values, yielding a
    /// fully-specified naming description.
    pub fn resolve_components(&self, components: &Components) -> (r: ResolvedComponents)
        requires
            self.wf(),
        ensures
            r@ == resolve_view(self@, components@),
            r.frame_number as nat == resolve_view(self@, components@).frame_number,
    {
        let prefix = match &components.prefix {
            Some(p) => p.clone(),
            None => self.prefix.clone(),
        };
        let delimiter = match &components.delimiter {
            Some(d) => d.clone(),
            None => match &self.delimiter {
                Some(d) => d.clone(),
                None => String::new(),
            },
        };
        let padding = match components.padding {
            Some(p) => p,
            None => self.padding(),
        };
        let suffix = match &components.suffix {
            Some(s) => s.clone(),
            None => match &self.suffix {
                Some(s) => s.clone(),
                None => String::new(),
            },
        };
        let extension = match &components.extension {
            Some(e) => e.clone(),
            None => self.extension.clone(),
        };
        let frame_number = match components.frame_number {
            Some(f) => f,
            None => self.frame_number(),
        };
        ResolvedComponents { prefix, delimiter, padding, suffix, extension, frame_number }
    }

    /// Builds the item a resolution describes, in the given directory.
    fn from_resolved(resolved: ResolvedComponents, directory: Option<String>) -> (r: Item)
        ensures
            r@ == from_resolved_view(resolved@, opt_view(directory)),
            r.wf(),
    {
        let frame_string = pad_frame_string(resolved.frame_number, resolved.padding);
        let delimiter = if resolved.delimiter.as_str().is_empty() {
            None
        } else {
            Some(resolved.delimiter)
        };
        let suffix = if resolved.suffix.as_str().is_empty() {
            None
        } else {
            Some(resolved.suffix)
        };
        let r = Item {
            prefix: resolved.prefix,
            frame_string,
            extension: resolved.extension,
            delimiter,
            suffix,
            directory,
        };
        proof {
            lemma_pad_dec_shape(resolved.frame_number as nat, resolved.padding as nat);
            lemma_parse_pad_dec(resolved.frame_number as nat, resolved.padding as nat);
            assert(r@ =~= from_resolved_view(resolved@, opt_view(directory)));
        }
        r
    }

    /// The item that merging `components` onto this one proposes, placed in
    /// `directory` when given and kept in this item's directory otherwise.
    pub fn with_components(&self, components: Components, directory: Option<String>) -> (r: Item)
        requires
            self.wf(),
        ensures
            r@ == apply_view(self@, components@, opt_view(directory)),
            r.wf(),
    {
        let resolved = self.resolve_components(&components);
        let target_dir = match directory {
            Some(d) => Some(d),
            None => clone_opt_string(&self.directory),
        };
        Item::from_resolved(resolved, target_dir)
    }

    /// Plans a rename: merges `components` in place and emits one rename
    /// operation, or none at all when the path would not change.
    pub fn rename(&self, components: Components) -> (r: Planned<Item>)
        requires
            self.wf(),
        ensures
            r.proposed@ == rename_target(self@, components@),
            r.proposed.wf(),
            r.plan@ == item_rename_plan(self@, components@),
    {
        let new_item = self.with_components(components, clone_opt_string(&self.directory));
        let mut plan = OperationPlan::new();
        let source = self.path();
        let destination = new_item.path();
        if !destination.eq(&source) {
            plan.push(FileOperation::Rename { source, destination });
            proof {
                assert(plan@ =~= item_rename_plan(self@, components@));
            }
        } else {
            proof {
                assert(plan@ =~= item_rename_plan(self@, components@));
            }
        }
        Planned { proposed: new_item, plan }
    }

    /// Plans a deletion: always exactly one delete of this item's path.
    /// Deletion has no after-state, so a bare plan is returned.
    pub fn delete(&self) -> (r: OperationPlan)
        ensures
            r@ == seq![OpView::Delete { source: path_view(self@) }],
    {
        let mut plan = OperationPlan::new();
        plan.push(FileOperation::Delete { source: self.path() });
        proof {
            assert(plan@ =~= seq![OpView::Delete { source: path_view(self@) }]);
        }
        plan
    }

    /// Plans a copy: merges `components` when given, else relocates the
    /// identical item to `directory` (falling back to the current
    /// directory). Always emits exactly one copy operation, even when the
    /// source and destination paths coincide.
    pub fn copy_to(&self, components: Option<Components>, directory: Option<String>) -> (r:
        Planned<Item>)
        requires
            self.wf(),
        ensures
            r.proposed@ == relocate_target(self@, opt_components_view(components), opt_view(
                directory,
            )),
            r.proposed.wf(),
            r.plan@ == seq![
                OpView::Copy { source: path_view(self@), destination: path_view(r.proposed@) },
            ],
    {
        let new_item = self.relocated(components, directory);
        let mut plan = OperationPlan::new();
        plan.push(
            FileOperation::Copy { source: self.path(), destination: new_item.path() },
        );
        proof {
            assert(plan@ =~= seq![
                OpView::Copy {
                    source: path_view(self@),
                    destination: path_view(new_item@),
                },
            ]);
        }
        Planned { proposed: new_item, plan }
    }

    /// Plans a move: the same merge as [`Self::copy_to`], emitting exactly
    /// one move operation.
    pub fn move_to(&self, components: Option<Components>, directory: Option<String>) -> (r:
        Planned<Item>)
        requires
            self.wf(),
        ensures
            r.proposed@ == relocate_target(self@, opt_components_view(components), opt_view(
                directory,
            )),
            r.proposed.wf(),
            r.plan@ == seq![
                OpView::Move { source: path_view(self@), destination: path_view(r.proposed@) },
            ],
    {
        let new_item = self.relocated(components, directory);
        let mut plan = OperationPlan::new();
        plan.push(
            FileOperation::Move { source: self.path(), destination: new_item.path() },
        );
        proof {
            assert(plan@ =~= seq![
                OpView::Move {
                    source: path_view(self@),
                    destination: path_view(new_item@),
                },
            ]);
        }
        Planned { proposed: new_item, plan }
    }

    /// The item a copy or move proposes.
    fn relocated(&self, components: Option<Components>, directory: Option<String>) -> (r: Item)
        requires
            self.wf(),
        ensures
            r@ == relocate_target(self@, opt_components_view(components), opt_view(directory)),
            r.wf(),
    {
        match components {
            Some(c) => self.with_components(c, directory),
            None => {
                let r = Item {
                    prefix: self.prefix.clone(),
                    frame_string: self.frame_string.clone(),
                    extension: self.extension.clone(),
                    delimiter: clone_opt_string(&self.delimiter),
                    suffix: clone_opt_string(&self.suffix),
                    directory: match directory {
                        Some(d) => Some(d),
                        None => clone_opt_string(&self.directory),
                    },
                };
                proof {
                    assert(r@ =~= relocate_target(
                        self@,
                        opt_components_view(components),
                        opt_view(directory),
                    ));
                }
                r
            },
        }
    }
}

/// An absent or empty optional string, read as absent.
pub open spec fn normalize_opt(o: Option<Seq<char>>) -> Option<Seq<char>> {
    match o {
        Some(s) => if s.len() == 0 {
            None
        } else {
            Some(s)
        },
        None => None,
    }
}

/// Normalizes an empty optional string to absent.
fn normalize_opt_string(o: Option<String>) -> (r: Option<String>)
    ensures
        opt_view(r) == normalize_opt(opt_view(o)),
{
    match o {
        Some(s) => if s.as_str().is_empty() {
            None
        } else {
            Some(s)
        },
        None => None,
    }
}

/// Whether an override field-by-field matches an item's current values:
/// each present field equals what the item already has.
pub open spec fn matches_current(c: ComponentsView, i: ItemView) -> bool {
    &&& match c.prefix {
        Some(p) => p == i.prefix,
        None => true,
    }
    &&& match c.delimiter {
        Some(d) => d == opt_or_empty(i.delimiter),
        None => true,
    }
    &&& match c.padding {
        Some(p) => p == i.frame_string.len(),
        None => true,
    }
    &&& match c.suffix {
        Some(s) => s == opt_or_empty(i.suffix),
        None => true,
    }
    &&& match c.extension {
        Some(e) => e == i.extension,
        None => true,
    }
    &&& match c.frame_number {
        Some(f) => f == parse_dec(i.frame_string),
        None => true,
    }
}

/// A no-op rename law: renaming a well-formed item with an override equal
/// to its current values proposes the identical item, so its path is
/// unchanged and the emitted plan is empty.
pub proof fn lemma_noop_rename(i: ItemView, c: ComponentsView)
    requires
        wf_item_view(i),
        matches_current(c, i),
    ensures
        rename_target(i, c) == i,
        item_rename_plan(i, c) == Seq::<OpView>::empty(),
{
    lemma_digit_string_canonical(i.frame_string);
    assert(rename_target(i, c) =~= i);
}

} // verus!
