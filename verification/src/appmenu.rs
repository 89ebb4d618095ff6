//! X11 AppMenu capability checks and bounded DBusMenu layout importing.
//!
//! The shell never scrapes an application's widgets or invents commands.
//! An application that publishes `_GTK_UNIQUE_BUS_NAME` and a menu object
//! path has its `com.canonical.dbusmenu` `GetLayout` tree imported, within
//! fixed bounds (four levels, 256 items, 256-character labels); anything
//! malformed or unsupported fails closed. D-Bus values reach the importer as
//! [`WireValue`]s, one for one with the D-Bus value kinds it reads.
use vstd::prelude::*;

use crate::text::{
    chars_to_string, eq_str, owned, push_chars, push_str_chars, split_on, split_on_chars,
    str_chars, str_is_empty, trim, trim_chars, trim_end_char, trim_end_char_chars,
    trim_start_char, trim_start_char_chars, views,
};


verus! {

/// Deepest layout level imported below the root.
pub const MAX_LAYOUT_DEPTH: u32 = 4;

/// Most items (and most children of one item) imported.
pub const MAX_MENU_ITEMS: usize = 256;

/// Longest label, in characters.
pub const MAX_LABEL_CHARS: usize = 256;

/// A menu exporter advertised on an X11 window.
#[derive(Debug, Clone, PartialEq, Eq)]
pub struct AppMenuExporter {
    pub window_id: u32,
    pub bus_name: String,
    pub object_path: String,
}

#[derive(Debug, Clone, Copy, PartialEq, Eq, Structural)]
pub enum AppMenuStatus {
    ShellOwned,
    NoExporter,
    ExporterDetected,
}

#[derive(Debug, Clone, Copy, PartialEq, Eq, Structural)]
pub enum AppMenuItemKind {
    Standard,
    Separator,
    Submenu,
}

/// A protocol-safe menu item: only the fields received from DBusMenu.
#[derive(Debug)]
pub struct AppMenuItem {
    pub id: i32,
    pub label: String,
    pub visible: bool,
    pub enabled: bool,
    pub kind: AppMenuItemKind,
    pub children: Vec<AppMenuItem>,
}

/// An imported layout: its revision and top-level items.
#[derive(Debug)]
pub struct AppMenuLayout {
    pub revision: u32,
    pub items: Vec<AppMenuItem>,
}

#[derive(Debug, Clone, PartialEq, Eq)]
pub enum AppMenuImportError {
    Timeout,
    Dbus(String),
    InvalidLayout(String),
    LimitExceeded(&'static str),
}

/// A D-Bus value as the importer reads it. `Dict` holds the dictionary's
/// entries in its iteration order; `Variant` is a boxed `v` value; `Other`
/// stands for every value kind the importer never accepts.
#[derive(Debug)]
pub enum WireValue {
    Bool(bool),
    I32(i32),
    U32(u32),
    Str(String),
    Structure(Vec<WireValue>),
    Dict(Vec<(WireValue, WireValue)>),
    Array(Vec<WireValue>),
    Variant(Box<WireValue>),
    Other,
}

/// A menu item as texts.
pub ghost struct ItemModel {
    pub id: i32,
    pub label: Seq<char>,
    pub visible: bool,
    pub enabled: bool,
    pub kind: AppMenuItemKind,
    pub children: Seq<ItemModel>,
}

pub open spec fn item_model(i: AppMenuItem) -> ItemModel
    decreases i,
{
    ItemModel {
        id: i.id,
        label: i.label@,
        visible: i.visible,
        enabled: i.enabled,
        kind: i.kind,
        children: items_model(i.children@),
    }
}

pub open spec fn items_model(s: Seq<AppMenuItem>) -> Seq<ItemModel>
    decreases s,
{
    if s.len() == 0 {
        Seq::empty()
    } else {
        items_model(s.drop_last()).push(item_model(s.last()))
    }
}

impl View for AppMenuItem {
    type V = ItemModel;

    open spec fn view(&self) -> ItemModel {
        item_model(*self)
    }
}

/// An import error with its texts as character sequences.
pub ghost enum ErrView {
    Timeout,
    Dbus(Seq<char>),
    InvalidLayout(Seq<char>),
    LimitExceeded(Seq<char>),
}

pub open spec fn error_view(e: AppMenuImportError) -> ErrView {
    match e {
        AppMenuImportError::Timeout => ErrView::Timeout,
        AppMenuImportError::Dbus(m) => ErrView::Dbus(m@),
        AppMenuImportError::InvalidLayout(m) => ErrView::InvalidLayout(m@),
        AppMenuImportError::LimitExceeded(m) => ErrView::LimitExceeded(m@),
    }
}

/// ASCII letter or digit.
pub open spec fn ascii_alnum(c: char) -> bool {
    ('a' <= c && c <= 'z') || ('A' <= c && c <= 'Z') || ('0' <= c && c <= '9')
}

/// ASCII letter.
pub open spec fn ascii_alpha(c: char) -> bool {
    ('a' <= c && c <= 'z') || ('A' <= c && c <= 'Z')
}

pub(crate) fn ascii_alnum_exec(c: char) -> (r: bool)
    ensures
        r == ascii_alnum(c),
{
    ('a' <= c && c <= 'z') || ('A' <= c && c <= 'Z') || ('0' <= c && c <= '9')
}

/// A D-Bus unique bus name: `:` then at least two non-empty `.`-separated
/// components of ASCII letters, digits, `_` and `-`, 255 characters at most
/// (all of them ASCII, so characters and bytes agree).
pub open spec fn is_unique_bus_name(v: Seq<char>) -> bool {
    let parts = split_on(v.skip(1), '.');
    &&& v.len() > 0
    &&& v[0] == ':'
    &&& v.len() <= 255
    &&& parts.len() >= 2
    &&& forall|k: int|
        #![trigger parts[k]]
        0 <= k < parts.len() ==> parts[k].len() > 0 && forall|i: int|
            0 <= i < parts[k].len() ==> ascii_alnum(parts[k][i]) || parts[k][i] == '_'
                || parts[k][i] == '-'
}

/// Whether `value` is a D-Bus unique bus name (not merely text starting
/// with `:`).
pub fn valid_bus_name(value: &str) -> (r: bool)
    ensures
        r == is_unique_bus_name(value@),
{
    let v = str_chars(value);
    if v.len() == 0 || v[0] != ':' {
        return false;
    }
    if v.len() > 255 {
        return false;
    }
    let body = crate::text::slice_chars(&v, 1, v.len());
    assert(body@ =~= v@.skip(1));
    let parts = split_on_chars(&body, '.');
    let ghost pv = views(parts@);
    if parts.len() < 2 {
        return false;
    }
    let mut k: usize = 0;
    while k < parts.len()
        invariant
            v@ == value@,
            v@.len() > 0,
            v@[0] == ':',
            v@.len() <= 255,
            pv.len() >= 2,
            pv == views(parts@),
            pv == split_on(v@.skip(1), '.'),
            k <= parts@.len(),
            forall|q: int|
                #![trigger pv[q]]
                0 <= q < k ==> pv[q].len() > 0 && forall|i: int|
                    0 <= i < pv[q].len() ==> ascii_alnum(pv[q][i]) || pv[q][i] == '_' || pv[q][i]
                        == '-',
        decreases parts@.len() - k,
    {
        let part = &parts[k];
        assert(pv[k as int] == part@);
        if part.len() == 0 {
            assert(split_on(v@.skip(1), '.')[k as int].len() == 0);
            return false;
        }
        let mut i: usize = 0;
        while i < part.len()
            invariant
                v@ == value@,
                pv == split_on(v@.skip(1), '.'),
                k < pv.len(),
                part@ == pv[k as int],
                i <= part@.len(),
                forall|j: int|
                    0 <= j < i ==> ascii_alnum(part@[j]) || part@[j] == '_' || part@[j] == '-',
            decreases part@.len() - i,
        {
            let c = part[i];
            if !(ascii_alnum_exec(c) || c == '_' || c == '-') {
                assert(split_on(v@.skip(1), '.')[k as int][i as int] == c);
                return false;
            }
            i = i + 1;
        }
        k = k + 1;
    }
    true
}

/// A D-Bus object path: `/`, or `/` followed by non-empty `/`-separated
/// elements, each an ASCII letter or `_` followed by ASCII letters, digits
/// and `_`; 1024 characters at most (all ASCII, so bytes agree).
pub open spec fn is_object_path(v: Seq<char>) -> bool {
    let parts = split_on(v.skip(1), '/');
    if v == "/"@ {
        true
    } else {
        &&& v.len() <= 1024
        &&& v.len() > 1
        &&& v[0] == '/'
        &&& forall|k: int|
            #![trigger parts[k]]
            0 <= k < parts.len() ==> parts[k].len() > 0 && (ascii_alpha(parts[k][0])
                || parts[k][0] == '_') && forall|i: int|
                1 <= i < parts[k].len() ==> ascii_alnum(parts[k][i]) || parts[k][i] == '_'
    }
}

/// Whether `value` is a D-Bus object path.
pub fn valid_object_path(value: &str) -> (r: bool)
    ensures
        r == is_object_path(value@),
{
    let v = str_chars(value);
    if eq_str(&v, "/") {
        return true;
    }
    if v.len() > 1024 || v.len() <= 1 || v[0] != '/' {
        proof {
            reveal_strlit("/");
        }
        return false;
    }
    let body = crate::text::slice_chars(&v, 1, v.len());
    assert(body@ =~= v@.skip(1));
    let parts = split_on_chars(&body, '/');
    let ghost pv = views(parts@);
    let mut k: usize = 0;
    while k < parts.len()
        invariant
            v@ == value@,
            v@ != "/"@,
            v@.len() <= 1024,
            v@.len() > 1,
            v@[0] == '/',
            pv == views(parts@),
            pv == split_on(v@.skip(1), '/'),
            k <= parts@.len(),
            forall|q: int|
                #![trigger pv[q]]
                0 <= q < k ==> pv[q].len() > 0 && (ascii_alpha(pv[q][0]) || pv[q][0] == '_')
                    && forall|i: int|
                    1 <= i < pv[q].len() ==> ascii_alnum(pv[q][i]) || pv[q][i] == '_',
        decreases parts@.len() - k,
    {
        let part = &parts[k];
        assert(pv[k as int] == part@);
        if part.len() == 0 {
            assert(split_on(v@.skip(1), '/')[k as int].len() == 0);
            return false;
        }
        let first = part[0];
        if !(('a' <= first && first <= 'z') || ('A' <= first && first <= 'Z') || first == '_') {
            assert(split_on(v@.skip(1), '/')[k as int][0] == first);
            return false;
        }
        let mut i: usize = 1;
        while i < part.len()
            invariant
                v@ == value@,
                v@ != "/"@,
                pv == split_on(v@.skip(1), '/'),
                k < pv.len(),
                part@ == pv[k as int],
                1 <= i <= part@.len(),
                forall|j: int| 1 <= j < i ==> ascii_alnum(part@[j]) || part@[j] == '_',
            decreases part@.len() - i,
        {
            let c = part[i];
            if !(ascii_alnum_exec(c) || c == '_') {
                assert(split_on(v@.skip(1), '/')[k as int][i as int] == c);
                return false;
            }
            i = i + 1;
        }
        k = k + 1;
    }
    true
}

/// The value inside one `v` wrapper, or the value itself.
pub open spec fn unwrap_variant(v: WireValue) -> WireValue {
    match v {
        WireValue::Variant(b) => *b,
        _ => v,
    }
}

fn unwrap_variant_ref(v: &WireValue) -> (r: &WireValue)
    ensures
        *r == unwrap_variant(*v),
{
    match v {
        WireValue::Variant(b) => &**b,
        _ => v,
    }
}

/// The properties the importer reads.
pub ghost struct PropsModel {
    pub label: Option<Seq<char>>,
    pub item_type: Option<Seq<char>>,
    pub children_display: Option<Seq<char>>,
    pub visible: Option<bool>,
    pub enabled: Option<bool>,
}

pub open spec fn no_props() -> PropsModel {
    PropsModel {
        label: None,
        item_type: None,
        children_display: None,
        visible: None,
        enabled: None,
    }
}

/// One dictionary entry: the key must be a string; `label`, `type` and
/// `children-display` must hold a string and `visible` / `enabled` a boolean
/// (inside at most one `v` wrapper); other keys are ignored.
pub open spec fn props_step(p: PropsModel, entry: (WireValue, WireValue)) -> Result<PropsModel, ErrView> {
    match entry.0 {
        WireValue::Str(k) => {
            let key = k@;
            let v = unwrap_variant(entry.1);
            if key == "label"@ || key == "type"@ || key == "children-display"@ {
                match v {
                    WireValue::Str(t) => Ok(
                        if key == "label"@ {
                            PropsModel { label: Some(t@), ..p }
                        } else if key == "type"@ {
                            PropsModel { item_type: Some(t@), ..p }
                        } else {
                            PropsModel { children_display: Some(t@), ..p }
                        },
                    ),
                    _ => Err(ErrView::InvalidLayout("property "@ + key + " is not string"@)),
                }
            } else if key == "visible"@ || key == "enabled"@ {
                match v {
                    WireValue::Bool(b) => Ok(
                        if key == "visible"@ {
                            PropsModel { visible: Some(b), ..p }
                        } else {
                            PropsModel { enabled: Some(b), ..p }
                        },
                    ),
                    _ => Err(ErrView::InvalidLayout("property "@ + key + " is not bool"@)),
                }
            } else {
                Ok(p)
            }
        },
        _ => Err(ErrView::InvalidLayout("property key is not string"@)),
    }
}

pub open spec fn props_fold(es: Seq<(WireValue, WireValue)>) -> Result<PropsModel, ErrView>
    decreases es.len(),
{
    if es.len() == 0 {
        Ok(no_props())
    } else {
        match props_fold(es.drop_last()) {
            Err(e) => Err(e),
            Ok(p) => props_step(p, es.last()),
        }
    }
}

/// Properties of a layout node: a dictionary read entry by entry.
pub open spec fn parse_props(v: WireValue) -> Result<PropsModel, ErrView> {
    match v {
        WireValue::Dict(es) => props_fold(es@),
        _ => Err(ErrView::InvalidLayout("properties are not a dictionary"@)),
    }
}

/// Fields of a child layout structure (inside at most one `v` wrapper).
pub open spec fn child_fields(v: WireValue) -> Option<Seq<WireValue>> {
    match unwrap_variant(v) {
        WireValue::Structure(fs) => Some(fs@),
        _ => None,
    }
}

pub open spec fn children_fold(vs: Seq<WireValue>) -> Result<Seq<Seq<WireValue>>, ErrView>
    decreases vs.len(),
{
    if vs.len() == 0 {
        Ok(Seq::empty())
    } else {
        match children_fold(vs.drop_last()) {
            Err(e) => Err(e),
            Ok(cs) => match child_fields(vs.last()) {
                Some(f) => Ok(cs.push(f)),
                None => Err(ErrView::InvalidLayout("child is not a layout structure"@)),
            },
        }
    }
}

/// Children of a layout node: an array of layout structures.
pub open spec fn parse_children_of(v: WireValue) -> Result<Seq<Seq<WireValue>>, ErrView> {
    match v {
        WireValue::Array(vs) => children_fold(vs@),
        _ => Err(ErrView::InvalidLayout("children are not an array"@)),
    }
}

/// `char::is_control`: general category Cc (C0 and C1 control codes).
pub open spec fn is_control(c: char) -> bool {
    (c as u32) <= 0x1f || (0x7f <= (c as u32) && (c as u32) <= 0x9f)
}

/// Why a label is refused, if it is.
pub open spec fn label_problem(l: Seq<char>) -> Option<ErrView> {
    if l.len() > 256 {
        Some(ErrView::LimitExceeded("label length"@))
    } else if exists|i: int| 0 <= i < l.len() && is_control(l[i]) {
        Some(ErrView::InvalidLayout("label contains control characters"@))
    } else {
        None
    }
}

/// What `{:?}` prints for a text (std's `Debug` for `str`: quoted, escaped).
pub uninterp spec fn debug_quoted(s: Seq<char>) -> Seq<char>;

/// Trusted: std's `Debug` formatting of `s`; the result is the text
/// `debug_quoted` names for `s`.
#[verifier::external_body]
fn debug_text(s: &str) -> (r: String)
    ensures
        r@ == debug_quoted(s@),
{
    format!("{s:?}")
}

/// Measure for layout recursion: levels left before the depth limit.
pub open spec fn depth_left(d: u32) -> nat {
    if d <= 5 {
        (5 - d) as nat
    } else {
        0
    }
}

/// Kind of an item: separators, submenus (children shown as a submenu),
/// else standard entries.
pub open spec fn kind_of(item_type: Seq<char>, children_display: Option<Seq<char>>) -> AppMenuItemKind {
    if item_type == "separator"@ {
        AppMenuItemKind::Separator
    } else if children_display == Some("submenu"@) {
        AppMenuItemKind::Submenu
    } else {
        AppMenuItemKind::Standard
    }
}

/// A layout node at `depth`, with `used` items counted so far: the item and
/// the new count, or why it is refused. Nodes deeper than four levels,
/// without exactly id/properties/children, with a non-`int32` id, an
/// unsupported type, a separator with children, children not marked as a
/// submenu below the root, more than 256 children, a bad label or beyond
/// 256 items in all are refused; children are read in order first.
pub open spec fn wire_node(fields: Seq<WireValue>, depth: u32, used: nat) -> Result<(ItemModel, nat), ErrView>
    decreases depth_left(depth), 0nat,
{
    if depth > 4 {
        Err(ErrView::LimitExceeded("layout depth"@))
    } else if fields.len() != 3 {
        Err(ErrView::InvalidLayout("layout node must contain id, properties, children"@))
    } else {
        match fields[0] {
            WireValue::I32(id) => match parse_props(fields[1]) {
                Err(e) => Err(e),
                Ok(p) => match parse_children_of(fields[2]) {
                    Err(e) => Err(e),
                    Ok(cs) => {
                        let item_type = match p.item_type {
                            Some(t) => t,
                            None => "standard"@,
                        };
                        if item_type != "standard"@ && item_type != "separator"@ {
                            Err(ErrView::InvalidLayout("unsupported item type "@ + debug_quoted(item_type)))
                        } else if item_type == "separator"@ && cs.len() > 0 {
                            Err(ErrView::InvalidLayout("separator has children"@))
                        } else if depth != 0 && cs.len() > 0 && p.children_display != Some("submenu"@) {
                            Err(ErrView::InvalidLayout("children are missing children-display=submenu"@))
                        } else if cs.len() > 256 {
                            Err(ErrView::LimitExceeded("children"@))
                        } else {
                            match wire_children(cs, (depth + 1) as u32, used) {
                                Err(e) => Err(e),
                                Ok(kids) => {
                                    let label = match p.label {
                                        Some(l) => l,
                                        None => Seq::empty(),
                                    };
                                    match label_problem(label) {
                                        Some(e) => Err(e),
                                        None => if kids.1 + 1 > 256 {
                                            Err(ErrView::LimitExceeded("item count"@))
                                        } else {
                                            Ok(
                                                (
                                                    ItemModel {
                                                        id,
                                                        label,
                                                        visible: match p.visible {
                                                            Some(b) => b,
                                                            None => true,
                                                        },
                                                        enabled: match p.enabled {
                                                            Some(b) => b,
                                                            None => true,
                                                        },
                                                        kind: kind_of(item_type, p.children_display),
                                                        children: kids.0,
                                                    },
                                                    kids.1 + 1,
                                                ),
                                            )
                                        },
                                    }
                                },
                            }
                        }
                    },
                },
            },
            _ => Err(ErrView::InvalidLayout("item id is not int32"@)),
        }
    }
}

/// Child nodes at `depth`, in order, threading the item count.
pub open spec fn wire_children(cs: Seq<Seq<WireValue>>, depth: u32, used: nat) -> Result<(Seq<ItemModel>, nat), ErrView>
    decreases depth_left(depth), cs.len(),
{
    if cs.len() == 0 {
        Ok((Seq::empty(), used))
    } else {
        match wire_children(cs.drop_last(), depth, used) {
            Err(e) => Err(e),
            Ok(ks) => match wire_node(cs.last(), depth, ks.1) {
                Err(e) => Err(e),
                Ok(k) => Ok((ks.0.push(k.0), k.1)),
            },
        }
    }
}

/// An imported layout as texts.
pub ghost struct LayoutModel {
    pub revision: u32,
    pub items: Seq<ItemModel>,
}

/// The layout under a root node: the root itself is not an item, its
/// children are the top-level entries.
pub open spec fn layout_of(revision: u32, root: Seq<WireValue>) -> Result<LayoutModel, ErrView> {
    match wire_node(root, 0, 0) {
        Ok(r) => Ok(LayoutModel { revision, items: r.0.children }),
        Err(e) => Err(e),
    }
}

proof fn lemma_props_fold_err(es: Seq<(WireValue, WireValue)>, j: int, e: ErrView)
    requires
        0 <= j <= es.len(),
        props_fold(es.take(j)) == Err::<PropsModel, ErrView>(e),
    ensures
        props_fold(es) == Err::<PropsModel, ErrView>(e),
    decreases es.len(),
{
    if j == es.len() {
        assert(es.take(j) =~= es);
    } else {
        assert(es.drop_last().take(j) =~= es.take(j));
        lemma_props_fold_err(es.drop_last(), j, e);
    }
}

proof fn lemma_children_fold_err(vs: Seq<WireValue>, j: int, e: ErrView)
    requires
        0 <= j <= vs.len(),
        children_fold(vs.take(j)) == Err::<Seq<Seq<WireValue>>, ErrView>(e),
    ensures
        children_fold(vs) == Err::<Seq<Seq<WireValue>>, ErrView>(e),
    decreases vs.len(),
{
    if j == vs.len() {
        assert(vs.take(j) =~= vs);
    } else {
        assert(vs.drop_last().take(j) =~= vs.take(j));
        lemma_children_fold_err(vs.drop_last(), j, e);
    }
}

proof fn lemma_wire_children_err(cs: Seq<Seq<WireValue>>, depth: u32, used: nat, j: int, e: ErrView)
    requires
        0 <= j <= cs.len(),
        wire_children(cs.take(j), depth, used) == Err::<(Seq<ItemModel>, nat), ErrView>(e),
    ensures
        wire_children(cs, depth, used) == Err::<(Seq<ItemModel>, nat), ErrView>(e),
    decreases cs.len(),
{
    if j == cs.len() {
        assert(cs.take(j) =~= cs);
    } else {
        assert(cs.drop_last().take(j) =~= cs.take(j));
        lemma_wire_children_err(cs.drop_last(), depth, used, j, e);
    }
}

/// Properties read from a node, as `Option`s.
struct Props {
    label: Option<String>,
    item_type: Option<String>,
    children_display: Option<String>,
    visible: Option<bool>,
    enabled: Option<bool>,
}

pub open spec fn text_opt(o: Option<String>) -> Option<Seq<char>> {
    match o {
        Some(s) => Some(s@),
        None => None,
    }
}

spec fn props_view(p: Props) -> PropsModel {
    PropsModel {
        label: text_opt(p.label),
        item_type: text_opt(p.item_type),
        children_display: text_opt(p.children_display),
        visible: p.visible,
        enabled: p.enabled,
    }
}

fn invalid_layout(msg: &str) -> (e: AppMenuImportError)
    ensures
        error_view(e) == ErrView::InvalidLayout(msg@),
{
    AppMenuImportError::InvalidLayout(owned(msg))
}

fn property_error(key: &[char], suffix: &str) -> (e: AppMenuImportError)
    ensures
        error_view(e) == ErrView::InvalidLayout("property "@ + key@ + suffix@),
{
    let mut m = str_chars("property ");
    push_chars(&mut m, key);
    push_str_chars(&mut m, suffix);
    AppMenuImportError::InvalidLayout(chars_to_string(&m))
}

fn parse_properties(value: &WireValue) -> (r: Result<Props, AppMenuImportError>)
    ensures
        match r {
            Ok(p) => parse_props(*value) == Ok::<PropsModel, ErrView>(props_view(p)),
            Err(e) => parse_props(*value) == Err::<PropsModel, ErrView>(error_view(e)),
        },
{
    proof {
        reveal_strlit("label");
        reveal_strlit("type");
        reveal_strlit("children-display");
        reveal_strlit("visible");
        reveal_strlit("enabled");
    }
    match value {
        WireValue::Dict(entries) => {
            let mut p = Props {
                label: None,
                item_type: None,
                children_display: None,
                visible: None,
                enabled: None,
            };
            let mut i: usize = 0;
            assert(entries@.take(0) =~= Seq::<(WireValue, WireValue)>::empty());
            while i < entries.len()
                invariant
                    parse_props(*value) == props_fold(entries@),
                    i <= entries@.len(),
                    props_fold(entries@.take(i as int)) == Ok::<PropsModel, ErrView>(props_view(p)),
                decreases entries@.len() - i,
            {
                assert(entries@.take(i + 1).drop_last() =~= entries@.take(i as int));
                assert(entries@.take(i + 1).last() == entries@[i as int]);
                let entry = &entries[i];
                match &entry.0 {
                    WireValue::Str(k) => {
                        let key = str_chars(k.as_str());
                        let v = unwrap_variant_ref(&entry.1);
                        if eq_str(&key, "label") || eq_str(&key, "type") || eq_str(
                            &key,
                            "children-display",
                        ) {
                            match v {
                                WireValue::Str(t) => {
                                    if eq_str(&key, "label") {
                                        p.label = Some(t.clone());
                                    } else if eq_str(&key, "type") {
                                        p.item_type = Some(t.clone());
                                    } else {
                                        p.children_display = Some(t.clone());
                                    }
                                },
                                _ => {
                                    let e = property_error(&key, " is not string");
                                    proof {
                                        lemma_props_fold_err(entries@, i + 1, error_view(e));
                                    }
                                    return Err(e);
                                },
                            }
                        } else if eq_str(&key, "visible") || eq_str(&key, "enabled") {
                            match v {
                                WireValue::Bool(b) => {
                                    if eq_str(&key, "visible") {
                                        p.visible = Some(*b);
                                    } else {
                                        p.enabled = Some(*b);
                                    }
                                },
                                _ => {
                                    let e = property_error(&key, " is not bool");
                                    proof {
                                        lemma_props_fold_err(entries@, i + 1, error_view(e));
                                    }
                                    return Err(e);
                                },
                            }
                        }
                    },
                    _ => {
                        let e = invalid_layout("property key is not string");
                        proof {
                            lemma_props_fold_err(entries@, i + 1, error_view(e));
                        }
                        return Err(e);
                    },
                }
                i = i + 1;
            }
            assert(entries@.take(entries@.len() as int) =~= entries@);
            Ok(p)
        },
        _ => Err(invalid_layout("properties are not a dictionary")),
    }
}

/// Field lists of child structures.
pub open spec fn fields_views(s: Seq<&Vec<WireValue>>) -> Seq<Seq<WireValue>> {
    s.map_values(|f: &Vec<WireValue>| f@)
}

fn parse_children(value: &WireValue) -> (r: Result<Vec<&Vec<WireValue>>, AppMenuImportError>)
    ensures
        match r {
            Ok(cs) => parse_children_of(*value) == Ok::<Seq<Seq<WireValue>>, ErrView>(
                fields_views(cs@),
            ),
            Err(e) => parse_children_of(*value) == Err::<Seq<Seq<WireValue>>, ErrView>(
                error_view(e),
            ),
        },
{
    match value {
        WireValue::Array(items) => {
            let mut out: Vec<&Vec<WireValue>> = Vec::new();
            let mut i: usize = 0;
            assert(items@.take(0) =~= Seq::<WireValue>::empty());
            assert(fields_views(out@) =~= Seq::<Seq<WireValue>>::empty());
            while i < items.len()
                invariant
                    parse_children_of(*value) == children_fold(items@),
                    i <= items@.len(),
                    children_fold(items@.take(i as int)) == Ok::<Seq<Seq<WireValue>>, ErrView>(
                        fields_views(out@),
                    ),
                decreases items@.len() - i,
            {
                assert(items@.take(i + 1).drop_last() =~= items@.take(i as int));
                assert(items@.take(i + 1).last() == items@[i as int]);
                let child = unwrap_variant_ref(&items[i]);
                match child {
                    WireValue::Structure(fs) => {
                        let ghost before = fields_views(out@);
                        out.push(fs);
                        assert(fields_views(out@) =~= before.push(fs@));
                    },
                    _ => {
                        let e = invalid_layout("child is not a layout structure");
                        proof {
                            lemma_children_fold_err(items@, i + 1, error_view(e));
                        }
                        return Err(e);
                    },
                }
                i = i + 1;
            }
            assert(items@.take(items@.len() as int) =~= items@);
            Ok(out)
        },
        _ => Err(invalid_layout("children are not an array")),
    }
}

/// Refuse labels over 256 characters or with control characters.
pub fn validate_label(label: &str) -> (r: Result<(), AppMenuImportError>)
    ensures
        match r {
            Ok(_) => label_problem(label@) is None,
            Err(e) => label_problem(label@) == Some(error_view(e)),
        },
{
    let l = str_chars(label);
    if l.len() > MAX_LABEL_CHARS {
        return Err(AppMenuImportError::LimitExceeded("label length"));
    }
    let mut i: usize = 0;
    while i < l.len()
        invariant
            l@ == label@,
            l@.len() <= 256,
            i <= l@.len(),
            forall|j: int| 0 <= j < i ==> !is_control(l@[j]),
        decreases l@.len() - i,
    {
        let u = l[i] as u32;
        if u <= 0x1f || (0x7f <= u && u <= 0x9f) {
            assert(is_control(l@[i as int]));
            return Err(invalid_layout("label contains control characters"));
        }
        i = i + 1;
    }
    Ok(())
}

/// Items counted while importing one layout.
struct ParseBudget {
    items: usize,
}

fn parse_wire_node(fields: &Vec<WireValue>, depth: u32, budget: &mut ParseBudget) -> (r: Result<
    AppMenuItem,
    AppMenuImportError,
>)
    requires
        old(budget).items <= MAX_MENU_ITEMS,
    ensures
        match r {
            Ok(item) => wire_node(fields@, depth, old(budget).items as nat) == Ok::<
                (ItemModel, nat),
                ErrView,
            >((item@, final(budget).items as nat)) && final(budget).items <= MAX_MENU_ITEMS,
            Err(e) => wire_node(fields@, depth, old(budget).items as nat) == Err::<
                (ItemModel, nat),
                ErrView,
            >(error_view(e)),
        },
    decreases depth_left(depth),
{
    proof {
        reveal_strlit("standard");
        reveal_strlit("separator");
        reveal_strlit("submenu");
    }
    let ghost used0 = budget.items as nat;
    if depth > MAX_LAYOUT_DEPTH {
        return Err(AppMenuImportError::LimitExceeded("layout depth"));
    }
    if fields.len() != 3 {
        return Err(invalid_layout("layout node must contain id, properties, children"));
    }
    let id = match &fields[0] {
        WireValue::I32(x) => *x,
        _ => {
            return Err(invalid_layout("item id is not int32"));
        },
    };
    let props = match parse_properties(&fields[1]) {
        Ok(p) => p,
        Err(e) => {
            return Err(e);
        },
    };
    let child_values = match parse_children(&fields[2]) {
        Ok(c) => c,
        Err(e) => {
            return Err(e);
        },
    };
    let ghost cs = fields_views(child_values@);
    let visible = match props.visible {
        Some(b) => b,
        None => true,
    };
    let enabled = match props.enabled {
        Some(b) => b,
        None => true,
    };
    let type_text: &str = match &props.item_type {
        Some(t) => t.as_str(),
        None => "standard",
    };
    let tv = str_chars(type_text);
    let is_separator = eq_str(&tv, "separator");
    if !eq_str(&tv, "standard") && !is_separator {
        let mut m = str_chars("unsupported item type ");
        let d = debug_text(type_text);
        let dv = str_chars(d.as_str());
        push_chars(&mut m, &dv);
        return Err(AppMenuImportError::InvalidLayout(chars_to_string(&m)));
    }
    if is_separator && child_values.len() > 0 {
        return Err(invalid_layout("separator has children"));
    }
    let submenu = match &props.children_display {
        Some(d) => {
            let dv = str_chars(d.as_str());
            eq_str(&dv, "submenu")
        },
        None => false,
    };
    assert(submenu == (text_opt(props.children_display) == Some("submenu"@)));
    if depth != 0 && child_values.len() > 0 && !submenu {
        return Err(invalid_layout("children are missing children-display=submenu"));
    }
    if child_values.len() > MAX_MENU_ITEMS {
        return Err(AppMenuImportError::LimitExceeded("children"));
    }
    assert(wire_children(cs, (depth + 1) as u32, used0) is Err ==> wire_node(fields@, depth, used0)
        == Err::<(ItemModel, nat), ErrView>(wire_children(cs, (depth + 1) as u32, used0)->Err_0));
    let mut children: Vec<AppMenuItem> = Vec::new();
    let mut k: usize = 0;
    assert(cs.take(0) =~= Seq::<Seq<WireValue>>::empty());
    assert(items_model(children@) =~= Seq::<ItemModel>::empty());
    while k < child_values.len()
        invariant
            depth <= MAX_LAYOUT_DEPTH,
            used0 == old(budget).items as nat,
            wire_children(cs, (depth + 1) as u32, used0) is Err ==> wire_node(fields@, depth, used0)
                == Err::<(ItemModel, nat), ErrView>(
                wire_children(cs, (depth + 1) as u32, used0)->Err_0,
            ),
            cs == fields_views(child_values@),
            k <= child_values@.len(),
            budget.items <= MAX_MENU_ITEMS,
            wire_children(cs.take(k as int), (depth + 1) as u32, used0) == Ok::<
                (Seq<ItemModel>, nat),
                ErrView,
            >((items_model(children@), budget.items as nat)),
        decreases child_values@.len() - k,
    {
        assert(cs.take(k + 1).drop_last() =~= cs.take(k as int));
        assert(cs.take(k + 1).last() == child_values@[k as int]@);
        match parse_wire_node(child_values[k], depth + 1, budget) {
            Ok(c) => {
                let ghost before = children@;
                children.push(c);
                assert(children@.drop_last() =~= before);
            },
            Err(e) => {
                proof {
                    lemma_wire_children_err(cs, (depth + 1) as u32, used0, k + 1, error_view(e));
                }
                return Err(e);
            },
        }
        k = k + 1;
    }
    assert(cs.take(cs.len() as int) =~= cs);
    let kind = if is_separator {
        AppMenuItemKind::Separator
    } else if submenu {
        AppMenuItemKind::Submenu
    } else {
        AppMenuItemKind::Standard
    };
    let label = match props.label {
        Some(l) => l,
        None => String::new(),
    };
    assert(label@ == (match text_opt(props.label) {
        Some(l) => l,
        None => Seq::<char>::empty(),
    }));
    match validate_label(label.as_str()) {
        Ok(_) => {},
        Err(e) => {
            return Err(e);
        },
    }
    let n = match budget.items.checked_add(1) {
        Some(n) => n,
        None => {
            return Err(AppMenuImportError::LimitExceeded("item count"));
        },
    };
    budget.items = n;
    if budget.items > MAX_MENU_ITEMS {
        return Err(AppMenuImportError::LimitExceeded("item count"));
    }
    Ok(AppMenuItem { id, label, visible, enabled, kind, children })
}

/// Parse a `GetLayout` root node into a layout (`(ia{sv}av)` as wire
/// values): the root's children become the top-level entries.
pub fn parse_layout(revision: u32, root: &Vec<WireValue>) -> (r: Result<AppMenuLayout, AppMenuImportError>)
    ensures
        match r {
            Ok(l) => layout_of(revision, root@) == Ok::<LayoutModel, ErrView>(
                LayoutModel { revision: l.revision, items: items_model(l.items@) },
            ),
            Err(e) => layout_of(revision, root@) == Err::<LayoutModel, ErrView>(error_view(e)),
        },
{
    let mut budget = ParseBudget { items: 0 };
    match parse_wire_node(root, 0, &mut budget) {
        Ok(item) => Ok(AppMenuLayout { revision, items: item.children }),
        Err(e) => Err(e),
    }
}

/// Layout from a `GetLayout` reply's fields: a `uint32` revision and the
/// root node structure, nothing else.
pub open spec fn reply_layout(fields: Seq<WireValue>) -> Result<LayoutModel, ErrView> {
    if fields.len() != 2 {
        Err(ErrView::InvalidLayout("GetLayout reply must contain revision and root"@))
    } else {
        match fields[0] {
            WireValue::U32(revision) => match fields[1] {
                WireValue::Structure(root) => layout_of(revision, root@),
                _ => Err(ErrView::InvalidLayout("GetLayout root is not a structure"@)),
            },
            _ => Err(ErrView::InvalidLayout("revision is not uint32"@)),
        }
    }
}

/// Parse the fields of a `GetLayout` reply into a layout.
pub fn parse_get_layout_reply(fields: &Vec<WireValue>) -> (r: Result<AppMenuLayout, AppMenuImportError>)
    ensures
        match r {
            Ok(l) => reply_layout(fields@) == Ok::<LayoutModel, ErrView>(
                LayoutModel { revision: l.revision, items: items_model(l.items@) },
            ),
            Err(e) => reply_layout(fields@) == Err::<LayoutModel, ErrView>(error_view(e)),
        },
{
    if fields.len() != 2 {
        return Err(invalid_layout("GetLayout reply must contain revision and root"));
    }
    let revision = match &fields[0] {
        WireValue::U32(v) => *v,
        _ => {
            return Err(invalid_layout("revision is not uint32"));
        },
    };
    match &fields[1] {
        WireValue::Structure(root) => parse_layout(revision, root),
        _ => Err(invalid_layout("GetLayout root is not a structure")),
    }
}

/// Only non-negative DBusMenu item ids can be activated (ids come from an
/// imported layout).
pub fn check_activation_id(item_id: i32) -> (r: Result<(), AppMenuImportError>)
    ensures
        r is Ok <==> item_id >= 0,
        r matches Err(e) ==> error_view(e) == ErrView::InvalidLayout("negative item id"@),
{
    if item_id < 0 {
        return Err(invalid_layout("negative item id"));
    }
    Ok(())
}

/// Text of an X11 window property: NULs trimmed from both ends, then
/// whitespace; `None` when nothing is left.
pub open spec fn property_text_of(v: Seq<char>) -> Option<Seq<char>> {
    let t = trim(trim_end_char(trim_start_char(v, '\0'), '\0'));
    if t.len() == 0 {
        None
    } else {
        Some(t)
    }
}

/// Clean up a window property's text.
pub fn property_text(value: &str) -> (r: Option<String>)
    ensures
        match r {
            Some(t) => property_text_of(value@) == Some(t@),
            None => property_text_of(value@) is None,
        },
{
    let v = str_chars(value);
    let a = trim_start_char_chars(&v, '\0');
    let b = trim_end_char_chars(&a, '\0');
    let t = trim_chars(&b);
    if t.len() == 0 {
        None
    } else {
        Some(chars_to_string(&t))
    }
}

/// The exporter a window advertises: its unique bus name and its app-menu
/// object path (the older menubar path when that is absent), both valid.
pub open spec fn exporter_of(
    bus_name: Option<Seq<char>>,
    app_menu_path: Option<Seq<char>>,
    menubar_path: Option<Seq<char>>,
) -> Option<(Seq<char>, Seq<char>)> {
    match bus_name {
        None => None,
        Some(b) => {
            let path = match app_menu_path {
                Some(p) => Some(p),
                None => menubar_path,
            };
            match path {
                None => None,
                Some(p) => if is_unique_bus_name(b) && is_object_path(p) {
                    Some((b, p))
                } else {
                    None
                },
            }
        },
    }
}

/// Decide a window's exporter from its (cleaned) X11 properties.
pub fn exporter_from_properties(
    window_id: u32,
    bus_name: Option<String>,
    app_menu_path: Option<String>,
    menubar_path: Option<String>,
) -> (r: Option<AppMenuExporter>)
    ensures
        match r {
            Some(x) => x.window_id == window_id && exporter_of(
                text_opt(bus_name),
                text_opt(app_menu_path),
                text_opt(menubar_path),
            ) == Some((x.bus_name@, x.object_path@)),
            None => exporter_of(text_opt(bus_name), text_opt(app_menu_path), text_opt(menubar_path))
                is None,
        },
{
    let bus_name = match bus_name {
        Some(b) => b,
        None => {
            return None;
        },
    };
    let object_path = match app_menu_path {
        Some(p) => p,
        None => match menubar_path {
            Some(p) => p,
            None => {
                return None;
            },
        },
    };
    if !valid_bus_name(bus_name.as_str()) || !valid_object_path(object_path.as_str()) {
        return None;
    }
    Some(AppMenuExporter { window_id, bus_name, object_path })
}

/// Status of a window given the exporter found on it.
pub fn status_for_exporter(exporter: Option<AppMenuExporter>) -> (r: (
    AppMenuStatus,
    Option<AppMenuExporter>,
))
    ensures
        r.1 == exporter,
        r.0 == (if exporter is Some {
            AppMenuStatus::ExporterDetected
        } else {
            AppMenuStatus::NoExporter
        }),
{
    let status = if exporter.is_some() {
        AppMenuStatus::ExporterDetected
    } else {
        AppMenuStatus::NoExporter
    };
    (status, exporter)
}

/// Items in a subtree, the item itself included.
pub open spec fn item_count(m: ItemModel) -> nat
    decreases m,
{
    1 + items_count(m.children)
}

/// Items in a list of subtrees.
pub open spec fn items_count(s: Seq<ItemModel>) -> nat
    decreases s,
{
    if s.len() == 0 {
        0
    } else {
        items_count(s.drop_last()) + item_count(s.last())
    }
}

/// Every label in the subtrees is acceptable.
pub open spec fn labels_ok(s: Seq<ItemModel>) -> bool
    decreases s,
{
    if s.len() == 0 {
        true
    } else {
        labels_ok(s.drop_last()) && label_problem(s.last().label) is None && labels_ok(
            s.last().children,
        )
    }
}

proof fn lemma_wire_node_bounds(fields: Seq<WireValue>, depth: u32, used: nat)
    ensures
        wire_node(fields, depth, used) matches Ok(r) ==> r.1 == used + item_count(r.0) && r.1
            <= 256 && label_problem(r.0.label) is None && labels_ok(r.0.children),
    decreases depth_left(depth), 0nat,
{
    if depth <= 4 && fields.len() == 3 {
        match parse_children_of(fields[2]) {
            Ok(cs) => {
                lemma_wire_children_bounds(cs, (depth + 1) as u32, used);
            },
            Err(_) => {},
        }
    }
}

proof fn lemma_wire_children_bounds(cs: Seq<Seq<WireValue>>, depth: u32, used: nat)
    ensures
        wire_children(cs, depth, used) matches Ok(r) ==> r.1 == used + items_count(r.0) && labels_ok(
            r.0,
        ),
    decreases depth_left(depth), cs.len(),
{
    if cs.len() > 0 {
        lemma_wire_children_bounds(cs.drop_last(), depth, used);
        match wire_children(cs.drop_last(), depth, used) {
            Ok(ks) => {
                lemma_wire_node_bounds(cs.last(), depth, ks.1);
                match wire_node(cs.last(), depth, ks.1) {
                    Ok(k) => {
                        assert(ks.0.push(k.0).drop_last() =~= ks.0);
                    },
                    Err(_) => {},
                }
            },
            Err(_) => {},
        }
    }
}

/// An imported layout stays within its bounds: fewer than 256 items below
/// the root in all, and every label is at most 256 characters with no
/// control character.
pub proof fn law_imported_layout_bounded(revision: u32, root: Seq<WireValue>)
    ensures
        layout_of(revision, root) matches Ok(l) ==> items_count(l.items) < 256 && labels_ok(l.items),
{
    lemma_wire_node_bounds(root, 0, 0);
}

} // verus!
