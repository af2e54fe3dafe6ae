//! Reading the desktop client's screen configuration out of a KDL document.
use vstd::prelude::*;
use vstd::string::StringExecFns;
use crate::screens::{AppConfig, DeviceRef, Element, Group, Screen, ServerConfig, WindowConfig, kdl_compat,
    preprocess_kdl_v1_compat};
use crate::text::str_eq;
use crate::state::{DeviceState, DeviceStateView, DeviceStateValue};

verus! {

/// A value of a KDL entry, as the configuration reads it.
#[derive(Debug)]
pub enum KdlScalar {
    Str(String),
    Int(i128),
    /// A floating-point number; the configuration never reads one.
    Float,
    Bool(bool),
    Null,
}

/// An entry of a KDL node: a property when it has a name, else a positional argument.
#[derive(Debug)]
pub struct KdlEntryModel {
    pub name: Option<String>,
    pub value: KdlScalar,
}

/// A node of a KDL document, with its entries in order and its children, if it has a block.
#[derive(Debug)]
pub struct KdlNodeModel {
    pub name: String,
    pub entries: Vec<KdlEntryModel>,
    pub children: Option<Vec<KdlNodeModel>>,
}

#[verifier::external_type_specification]
#[verifier::external_body]
pub struct ExKdlNode(kdl::KdlNode);

#[verifier::external_type_specification]
#[verifier::external_body]
pub struct ExKdlEntry(kdl::KdlEntry);

/// The nodes of the KDL document that `text` is, or the parser's message when it is none. The
/// KDL grammar is left to this name.
pub uninterp spec fn kdl_document(text: Seq<char>) -> Result<Seq<KdlNodeModel>, Seq<char>>;

/// Parses `text` with `kdl::KdlDocument`'s `FromStr` and gives its nodes as plain values, or
/// the error's message, which `KdlError`'s `Display` always writes as "Failed to parse KDL
/// document". What the document holds is left to the name [`kdl_document`].
#[verifier::external_body]
fn parse_kdl(text: &str) -> (res: Result<Vec<KdlNodeModel>, String>)
    ensures
        kdl_document(text@) == match res {
            Ok(nodes) => Ok(nodes@),
            Err(m) => Err(m@),
        },
        res matches Err(m) ==> m@ == "Failed to parse KDL document"@,
{
    match text.parse::<kdl::KdlDocument>() {
        Ok(doc) => Ok(node_models(doc.nodes())),
        Err(e) => Err(format!("{e}")),
    }
}

/// The plain values of KDL nodes: each node's name, entries and children, by `KdlNode::name`,
/// `KdlNode::entries` and `KdlNode::children`.
#[verifier::external_body]
fn node_models(nodes: &[kdl::KdlNode]) -> Vec<KdlNodeModel> {
    nodes.iter().map(|n| KdlNodeModel {
        name: n.name().value().to_string(),
        entries: n.entries().iter().map(entry_model).collect(),
        children: n.children().map(|c| node_models(c.nodes())),
    }).collect()
}

/// The plain value of a KDL entry: its name, by `KdlEntry::name`, and its value, by
/// `KdlEntry::value`, variant for variant.
#[verifier::external_body]
fn entry_model(e: &kdl::KdlEntry) -> KdlEntryModel {
    KdlEntryModel {
        name: e.name().map(|i| i.value().to_string()),
        value: match e.value() {
            kdl::KdlValue::String(s) => KdlScalar::Str(s.clone()),
            kdl::KdlValue::Integer(i) => KdlScalar::Int(*i),
            kdl::KdlValue::Float(_) => KdlScalar::Float,
            kdl::KdlValue::Bool(b) => KdlScalar::Bool(*b),
            kdl::KdlValue::Null => KdlScalar::Null,
        },
    }
}

/// The first positional argument of a node, searching its entries from `i`.
pub open spec fn first_arg_from(es: Seq<KdlEntryModel>, i: int) -> Option<int>
    decreases es.len() - i,
{
    if i < 0 || i >= es.len() {
        None
    } else if es[i].name is None {
        Some(i)
    } else {
        first_arg_from(es, i + 1)
    }
}

/// The first positional argument of a node when it is a string.
pub open spec fn arg_str(n: KdlNodeModel) -> Option<Seq<char>> {
    match first_arg_from(n.entries@, 0) {
        Some(k) => match n.entries@[k].value {
            KdlScalar::Str(s) => Some(s@),
            _ => None,
        },
        None => None,
    }
}

/// The first positional argument of a node when it is a boolean.
pub open spec fn arg_bool(n: KdlNodeModel) -> Option<bool> {
    match first_arg_from(n.entries@, 0) {
        Some(k) => match n.entries@[k].value {
            KdlScalar::Bool(b) => Some(b),
            _ => None,
        },
        None => None,
    }
}

/// The last property named `key` among the first `n` entries: a later property overrides an
/// earlier one.
pub open spec fn last_prop(es: Seq<KdlEntryModel>, key: Seq<char>, n: int) -> Option<int>
    decreases n,
{
    if n <= 0 || n > es.len() {
        None
    } else if es[n - 1].name matches Some(k) && k@ == key {
        Some(n - 1)
    } else {
        last_prop(es, key, n - 1)
    }
}

/// The integer value of property `key` of a node, if it has one.
pub open spec fn prop_int(n: KdlNodeModel, key: Seq<char>) -> Option<i128> {
    match last_prop(n.entries@, key, n.entries@.len() as int) {
        Some(k) => match n.entries@[k].value {
            KdlScalar::Int(i) => Some(i),
            _ => None,
        },
        None => None,
    }
}

/// The first node named `name`, searching from `i`.
pub open spec fn node_from(nodes: Seq<KdlNodeModel>, name: Seq<char>, i: int) -> Option<int>
    decreases nodes.len() - i,
{
    if i < 0 || i >= nodes.len() {
        None
    } else if nodes[i].name@ == name {
        Some(i)
    } else {
        node_from(nodes, name, i + 1)
    }
}

/// The first node named `name`.
pub open spec fn node_get(nodes: Seq<KdlNodeModel>, name: Seq<char>) -> Option<KdlNodeModel> {
    match node_from(nodes, name, 0) {
        Some(i) => Some(nodes[i]),
        None => None,
    }
}

/// The position of the first positional argument of a node.
fn first_arg(n: &KdlNodeModel) -> (res: Option<usize>)
    ensures
        res matches Some(k) ==> k < n.entries@.len() && first_arg_from(n.entries@, 0) == Some(k as int),
        res is None ==> first_arg_from(n.entries@, 0) is None,
{
    let mut i: usize = 0;
    while i < n.entries.len()
        invariant
            i <= n.entries@.len(),
            first_arg_from(n.entries@, 0) == first_arg_from(n.entries@, i as int),
        decreases n.entries@.len() - i,
    {
        if n.entries[i].name.is_none() {
            return Some(i);
        }
        i = i + 1;
    }
    None
}

/// The first positional argument of a node when it is a string.
pub fn node_arg_str(n: &KdlNodeModel) -> (res: Option<String>)
    ensures
        match res { Some(s) => arg_str(*n) == Some(s@), None => arg_str(*n) is None },
{
    match first_arg(n) {
        Some(k) => match &n.entries[k].value {
            KdlScalar::Str(s) => Some(s.clone()),
            _ => None,
        },
        None => None,
    }
}

/// The first positional argument of a node when it is a boolean.
pub fn node_arg_bool(n: &KdlNodeModel) -> (res: Option<bool>)
    ensures
        res == arg_bool(*n),
{
    match first_arg(n) {
        Some(k) => match &n.entries[k].value {
            KdlScalar::Bool(b) => Some(*b),
            _ => None,
        },
        None => None,
    }
}

/// The integer value of property `key` of a node, the last one when several share the name.
pub fn node_prop_int(n: &KdlNodeModel, key: &str) -> (res: Option<i128>)
    ensures
        res == prop_int(*n, key@),
{
    let mut found: Option<usize> = None;
    let mut i: usize = 0;
    while i < n.entries.len()
        invariant
            i <= n.entries@.len(),
            found matches Some(k) ==> k < i && last_prop(n.entries@, key@, i as int) == Some(k as int),
            found is None ==> last_prop(n.entries@, key@, i as int) is None,
        decreases n.entries@.len() - i,
    {
        match &n.entries[i].name {
            Some(k) => {
                if str_eq(k.as_str(), key) {
                    found = Some(i);
                }
            },
            None => {},
        }
        i = i + 1;
    }
    match found {
        Some(k) => match &n.entries[k].value {
            KdlScalar::Int(v) => Some(*v),
            _ => None,
        },
        None => None,
    }
}

/// The position of the first node named `name`.
pub fn find_node(nodes: &Vec<KdlNodeModel>, name: &str) -> (res: Option<usize>)
    ensures
        res matches Some(k) ==> k < nodes@.len() && node_from(nodes@, name@, 0) == Some(k as int),
        res is None ==> node_from(nodes@, name@, 0) is None,
{
    let mut i: usize = 0;
    while i < nodes.len()
        invariant
            i <= nodes@.len(),
            node_from(nodes@, name@, 0) == node_from(nodes@, name@, i as int),
        decreases nodes@.len() - i,
    {
        if str_eq(nodes[i].name.as_str(), name) {
            return Some(i);
        }
        i = i + 1;
    }
    None
}

/// The content of a [`DeviceRef`].
pub enum DeviceRefView {
    ById(Seq<char>),
    ByName(Seq<char>),
}

pub open spec fn device_ref_view(d: DeviceRef) -> DeviceRefView {
    match d {
        DeviceRef::ById(s) => DeviceRefView::ById(s@),
        DeviceRef::ByName(s) => DeviceRefView::ByName(s@),
    }
}

/// The content of an [`Element`].
pub enum ElementView {
    Light { name: Seq<char>, device_ref: DeviceRefView, show_switch: bool, show_slider: bool },
    Outlet { name: Seq<char>, device_ref: DeviceRefView },
    Sensor { device_ref: DeviceRefView, show_temp: bool, show_humidity: bool },
    Text { template: Seq<char> },
    Block { elements: Seq<ElementView> },
}

pub open spec fn element_view(e: Element) -> ElementView
    decreases e, 0nat,
{
    match e {
        Element::Light { name, device_ref, show_switch, show_slider } =>
            ElementView::Light { name: name@, device_ref: device_ref_view(device_ref), show_switch, show_slider },
        Element::Outlet { name, device_ref } => ElementView::Outlet { name: name@, device_ref: device_ref_view(device_ref) },
        Element::Sensor { device_ref, show_temp, show_humidity } =>
            ElementView::Sensor { device_ref: device_ref_view(device_ref), show_temp, show_humidity },
        Element::Text { template } => ElementView::Text { template: template@ },
        Element::Block { elements } => ElementView::Block { elements: elements_view(elements@, elements@.len()) },
    }
}

/// The contents of the first `n` elements.
pub open spec fn elements_view(s: Seq<Element>, n: nat) -> Seq<ElementView>
    decreases s, n,
{
    if n == 0 || n > s.len() {
        Seq::empty()
    } else {
        elements_view(s, (n - 1) as nat).push(element_view(s[n - 1]))
    }
}

proof fn lemma_elements_view_prefix(s1: Seq<Element>, s2: Seq<Element>, n: nat)
    requires
        n <= s1.len(),
        n <= s2.len(),
        forall|k: int| 0 <= k < n ==> s1[k] == s2[k],
    ensures
        elements_view(s1, n) == elements_view(s2, n),
    decreases n,
{
    if n > 0 {
        lemma_elements_view_prefix(s1, s2, (n - 1) as nat);
    }
}

/// The content of a [`Screen`].
pub struct ScreenView {
    pub name: Seq<char>,
    pub title: Seq<char>,
    /// Each group as its elements.
    pub groups: Seq<Seq<ElementView>>,
}

pub open spec fn group_view(g: Group) -> Seq<ElementView> {
    elements_view(g.elements@, g.elements@.len())
}

pub open spec fn screen_view(s: Screen) -> ScreenView {
    ScreenView { name: s.name@, title: s.title@, groups: s.groups@.map_values(|g: Group| group_view(g)) }
}

/// The content of an [`AppConfig`].
pub struct AppConfigView {
    pub host: Seq<char>,
    pub port: u16,
    pub width: i32,
    pub height: i32,
    pub screens: Seq<ScreenView>,
}

pub open spec fn app_config_view(c: AppConfig) -> AppConfigView {
    AppConfigView {
        host: c.server.host@,
        port: c.server.port,
        width: c.window.width,
        height: c.window.height,
        screens: c.screens@.map_values(|s: Screen| screen_view(s)),
    }
}

/// Whether a child block holds a node named `key`.
pub open spec fn child(children: Option<Vec<KdlNodeModel>>, key: Seq<char>) -> Option<KdlNodeModel> {
    match children {
        Some(c) => node_get(c@, key),
        None => None,
    }
}

/// How an element names its device: a `device-id` child before a `device` child, each with
/// a string argument.
pub open spec fn device_ref_spec(children: Option<Vec<KdlNodeModel>>) -> Result<DeviceRefView, Seq<char>> {
    match children {
        None => Err("Element requires a device or device-id child node"@),
        Some(c) => match node_get(c@, "device-id"@) {
            Some(n) => match arg_str(n) {
                Some(id) => Ok(DeviceRefView::ById(id)),
                None => Err("device-id requires a string argument"@),
            },
            None => match node_get(c@, "device"@) {
                Some(n) => match arg_str(n) {
                    Some(name) => Ok(DeviceRefView::ByName(name)),
                    None => Err("device requires a string argument"@),
                },
                None => Err("Element requires a device or device-id child node"@),
            },
        },
    }
}

/// A boolean setting of an element: the boolean argument of its child named `key`, else the
/// default.
pub open spec fn bool_setting(children: Option<Vec<KdlNodeModel>>, key: Seq<char>, default: bool) -> bool {
    match child(children, key) {
        Some(n) => match arg_bool(n) {
            Some(b) => b,
            None => default,
        },
        None => default,
    }
}

/// An element's first string argument as its name, or a default name.
pub open spec fn name_or(n: KdlNodeModel, default: Seq<char>) -> Seq<char> {
    match arg_str(n) {
        Some(s) => s,
        None => default,
    }
}

/// The element a node describes, by the node's name.
pub open spec fn element_spec(n: KdlNodeModel) -> Result<ElementView, Seq<char>>
    decreases n, 0nat,
{
    if n.name@ == "light"@ {
        match device_ref_spec(n.children) {
            Err(e) => Err(e),
            Ok(d) => Ok(ElementView::Light {
                name: name_or(n, "Light"@),
                device_ref: d,
                show_switch: bool_setting(n.children, "switch"@, true),
                show_slider: bool_setting(n.children, "slider"@, true),
            }),
        }
    } else if n.name@ == "outlet"@ {
        match device_ref_spec(n.children) {
            Err(e) => Err(e),
            Ok(d) => Ok(ElementView::Outlet { name: name_or(n, "Outlet"@), device_ref: d }),
        }
    } else if n.name@ == "sensor"@ {
        match device_ref_spec(n.children) {
            Err(e) => Err(e),
            Ok(d) => Ok(ElementView::Sensor {
                device_ref: d,
                show_temp: bool_setting(n.children, "show-temp"@, true),
                show_humidity: bool_setting(n.children, "show-humidity"@, true),
            }),
        }
    } else if n.name@ == "text"@ {
        match arg_str(n) {
            Some(t) => Ok(ElementView::Text { template: t }),
            None => Err("text node requires a template string argument"@),
        }
    } else if n.name@ == "block"@ {
        match n.children {
            Some(c) => match elements_spec(c@, 0) {
                Ok(es) => Ok(ElementView::Block { elements: es }),
                Err(e) => Err(e),
            },
            None => Ok(ElementView::Block { elements: Seq::empty() }),
        }
    } else {
        Err("Unknown element type: "@ + n.name@)
    }
}

/// The elements of nodes `i..`, in order, or the first error.
pub open spec fn elements_spec(ns: Seq<KdlNodeModel>, i: nat) -> Result<Seq<ElementView>, Seq<char>>
    decreases ns, ns.len() - i,
{
    if i >= ns.len() {
        Ok(Seq::empty())
    } else {
        match element_spec(ns[i as int]) {
            Err(e) => Err(e),
            Ok(e) => match elements_spec(ns, i + 1) {
                Err(x) => Err(x),
                Ok(rest) => Ok(seq![e] + rest),
            },
        }
    }
}

/// `prefix` before the elements of a result.
pub open spec fn prepend<T>(prefix: Seq<T>, r: Result<Seq<T>, Seq<char>>) -> Result<Seq<T>, Seq<char>> {
    match r {
        Ok(x) => Ok(prefix + x),
        Err(e) => Err(e),
    }
}

fn find_child<'a>(children: &'a Option<Vec<KdlNodeModel>>, key: &str) -> (res: Option<&'a KdlNodeModel>)
    ensures
        match res { Some(n) => child(*children, key@) == Some(*n), None => child(*children, key@) is None },
{
    match children {
        Some(c) => match find_node(c, key) {
            Some(i) => Some(&c[i]),
            None => None,
        },
        None => None,
    }
}

/// How an element names its device.
pub fn parse_device_ref(children: &Option<Vec<KdlNodeModel>>) -> (res: Result<DeviceRef, String>)
    ensures
        match res {
            Ok(d) => device_ref_spec(*children) == Ok::<DeviceRefView, Seq<char>>(device_ref_view(d)),
            Err(m) => device_ref_spec(*children) == Err::<DeviceRefView, Seq<char>>(m@),
        },
{
    if children.is_none() {
        return Err(String::from_str("Element requires a device or device-id child node"));
    }
    match find_child(children, "device-id") {
        Some(n) => match node_arg_str(n) {
            Some(id) => Ok(DeviceRef::ById(id)),
            None => Err(String::from_str("device-id requires a string argument")),
        },
        None => match find_child(children, "device") {
            Some(n) => match node_arg_str(n) {
                Some(name) => Ok(DeviceRef::ByName(name)),
                None => Err(String::from_str("device requires a string argument")),
            },
            None => Err(String::from_str("Element requires a device or device-id child node")),
        },
    }
}

/// A boolean setting of an element, with its default.
pub fn get_bool(children: &Option<Vec<KdlNodeModel>>, key: &str, default: bool) -> (res: bool)
    ensures
        res == bool_setting(*children, key@, default),
{
    match find_child(children, key) {
        Some(n) => match node_arg_bool(n) {
            Some(b) => b,
            None => default,
        },
        None => default,
    }
}

fn name_or_default(n: &KdlNodeModel, default: &str) -> (res: String)
    ensures
        res@ == name_or(*n, default@),
{
    match node_arg_str(n) {
        Some(s) => s,
        None => String::from_str(default),
    }
}

/// The element a node describes: a light, outlet, sensor, text or block, by its name.
pub fn parse_element(n: &KdlNodeModel) -> (res: Result<Element, String>)
    ensures
        match res {
            Ok(e) => element_spec(*n) == Ok::<ElementView, Seq<char>>(element_view(e)),
            Err(m) => element_spec(*n) == Err::<ElementView, Seq<char>>(m@),
        },
    decreases *n, 1nat,
{
    proof {
        reveal_strlit("light");
        reveal_strlit("outlet");
        reveal_strlit("sensor");
        reveal_strlit("text");
        reveal_strlit("block");
    }
    let name = n.name.as_str();
    if str_eq(name, "light") {
        match parse_device_ref(&n.children) {
            Err(e) => Err(e),
            Ok(d) => Ok(Element::Light {
                name: name_or_default(n, "Light"),
                device_ref: d,
                show_switch: get_bool(&n.children, "switch", true),
                show_slider: get_bool(&n.children, "slider", true),
            }),
        }
    } else if str_eq(name, "outlet") {
        match parse_device_ref(&n.children) {
            Err(e) => Err(e),
            Ok(d) => Ok(Element::Outlet { name: name_or_default(n, "Outlet"), device_ref: d }),
        }
    } else if str_eq(name, "sensor") {
        match parse_device_ref(&n.children) {
            Err(e) => Err(e),
            Ok(d) => Ok(Element::Sensor {
                device_ref: d,
                show_temp: get_bool(&n.children, "show-temp", true),
                show_humidity: get_bool(&n.children, "show-humidity", true),
            }),
        }
    } else if str_eq(name, "text") {
        match node_arg_str(n) {
            Some(t) => Ok(Element::Text { template: t }),
            None => Err(String::from_str("text node requires a template string argument")),
        }
    } else if str_eq(name, "block") {
        match &n.children {
            Some(c) => {
                proof {
                    assert(decreases_to!(*n => n.children));
                    assert(n.children == Some(*c));
                }
                match parse_children(n, c) {
                    Ok(es) => {
                        proof { lemma_elements_view_prefix(es@, es@, es@.len()); }
                        Ok(Element::Block { elements: es })
                    },
                    Err(e) => Err(e),
                }
            },
            None => {
                let es: Vec<Element> = Vec::new();
                assert(elements_view(es@, 0) =~= Seq::<ElementView>::empty());
                Ok(Element::Block { elements: es })
            },
        }
    } else {
        let mut m = String::from_str("Unknown element type: ");
        m.append(name);
        Err(m)
    }
}

/// The elements of a block's or group's child nodes, in order, or the first error.
fn parse_children(parent: &KdlNodeModel, c: &Vec<KdlNodeModel>) -> (res: Result<Vec<Element>, String>)
    requires
        decreases_to!(*parent => *c),
    ensures
        match res {
            Ok(v) => elements_spec(c@, 0) == Ok::<Seq<ElementView>, Seq<char>>(elements_view(v@, v@.len())),
            Err(m) => elements_spec(c@, 0) == Err::<Seq<ElementView>, Seq<char>>(m@),
        },
    decreases *parent, 0nat,
{
    let mut out: Vec<Element> = Vec::new();
    let mut i: usize = 0;
    while i < c.len()
        invariant
            i <= c@.len(),
            decreases_to!(*parent => *c),
            elements_spec(c@, 0) == prepend(elements_view(out@, out@.len()), elements_spec(c@, i as nat)),
        decreases c@.len() - i,
    {
        proof {
            assert(decreases_to!(*c => c@));
            assert(decreases_to!(c@ => c@[i as int]));
        }
        let r = parse_element(&c[i]);
        match r {
            Err(e) => {
                return Err(e);
            },
            Ok(e) => {
                let ghost before = out@;
                let ghost ev = element_view(e);
                out.push(e);
                proof {
                    lemma_elements_view_prefix(before, out@, before.len());
                    assert(elements_view(out@, out@.len()) == elements_view(before, before.len()).push(ev));
                    match elements_spec(c@, (i + 1) as nat) {
                        Ok(rest) => {
                            assert(elements_view(before, before.len()) + (seq![ev] + rest)
                                =~= elements_view(out@, out@.len()) + rest);
                        },
                        Err(_) => {},
                    }
                }
            },
        }
        i = i + 1;
    }
    assert(elements_view(out@, out@.len()) + Seq::<ElementView>::empty() =~= elements_view(out@, out@.len()));
    Ok(out)
}

/// The group a `group` node describes: the elements of its children.
pub open spec fn group_spec(n: KdlNodeModel) -> Result<Seq<ElementView>, Seq<char>> {
    match n.children {
        Some(c) => elements_spec(c@, 0),
        None => Ok(Seq::empty()),
    }
}

/// The groups of the nodes `i..` named `group`, in order, or the first error.
pub open spec fn groups_spec(ns: Seq<KdlNodeModel>, i: int) -> Result<Seq<Seq<ElementView>>, Seq<char>>
    decreases ns.len() - i,
{
    if i < 0 || i >= ns.len() {
        Ok(Seq::empty())
    } else if ns[i].name@ != "group"@ {
        groups_spec(ns, i + 1)
    } else {
        match group_spec(ns[i]) {
            Err(e) => Err(e),
            Ok(g) => prepend(seq![g], groups_spec(ns, i + 1)),
        }
    }
}

/// The screen a `screen` node describes: its name argument, the argument of its `title` child
/// (its name when it has none), and its groups.
pub open spec fn screen_spec(n: KdlNodeModel) -> Result<ScreenView, Seq<char>> {
    match arg_str(n) {
        None => Err("screen node requires a name string argument"@),
        Some(name) => {
            let title = match child(n.children, "title"@) {
                Some(t) => match arg_str(t) {
                    Some(x) => x,
                    None => name,
                },
                None => name,
            };
            let groups = match n.children {
                Some(c) => groups_spec(c@, 0),
                None => Ok(Seq::empty()),
            };
            match groups {
                Err(e) => Err(e),
                Ok(g) => Ok(ScreenView { name, title, groups: g }),
            }
        },
    }
}

/// The screens of the nodes `i..` named `screen`, in order, or the first error.
pub open spec fn screens_spec(ns: Seq<KdlNodeModel>, i: int) -> Result<Seq<ScreenView>, Seq<char>>
    decreases ns.len() - i,
{
    if i < 0 || i >= ns.len() {
        Ok(Seq::empty())
    } else if ns[i].name@ != "screen"@ {
        screens_spec(ns, i + 1)
    } else {
        match screen_spec(ns[i]) {
            Err(e) => Err(e),
            Ok(sc) => prepend(seq![sc], screens_spec(ns, i + 1)),
        }
    }
}

/// The server a document names: host and port of its first `server` node, the host its first
/// argument, the port its `port` property as a 16-bit number (31337 without one); localhost at
/// 31337 without such a node.
pub open spec fn server_spec(nodes: Seq<KdlNodeModel>) -> Result<(Seq<char>, u16), Seq<char>> {
    match node_get(nodes, "server"@) {
        None => Ok(("127.0.0.1"@, 31337u16)),
        Some(n) => match arg_str(n) {
            None => Err("server node requires a host string argument"@),
            Some(host) => Ok((host, match prop_int(n, "port"@) {
                Some(p) => p as u16,
                None => 31337u16,
            })),
        },
    }
}

/// A window dimension: property `key` of the first `window` node as a 32-bit number, else the
/// default.
pub open spec fn window_dim(nodes: Seq<KdlNodeModel>, key: Seq<char>, default: i32) -> i32 {
    match node_get(nodes, "window"@) {
        Some(n) => match prop_int(n, key) {
            Some(v) => v as i32,
            None => default,
        },
        None => default,
    }
}

/// The configuration a document describes: its server (whose error comes first), its window
/// (420 by 900 unless set) and its screens.
pub open spec fn config_spec(nodes: Seq<KdlNodeModel>) -> Result<AppConfigView, Seq<char>> {
    match server_spec(nodes) {
        Err(e) => Err(e),
        Ok(server) => match screens_spec(nodes, 0) {
            Err(e) => Err(e),
            Ok(screens) => Ok(AppConfigView {
                host: server.0,
                port: server.1,
                width: window_dim(nodes, "width"@, 420),
                height: window_dim(nodes, "height"@, 900),
                screens,
            }),
        },
    }
}

/// The configuration a text describes: the text with older booleans rewritten, parsed as KDL
/// (a parse failure reported as `KDL parse error: ` and the parser's message), then read.
pub open spec fn parse_config_spec(content: Seq<char>) -> Result<AppConfigView, Seq<char>> {
    match kdl_document(kdl_compat(content)) {
        Err(e) => Err("KDL parse error: "@ + e),
        Ok(nodes) => config_spec(nodes),
    }
}

/// The group a `group` node describes.
pub fn parse_group(n: &KdlNodeModel) -> (res: Result<Group, String>)
    ensures
        match res {
            Ok(g) => group_spec(*n) == Ok::<Seq<ElementView>, Seq<char>>(group_view(g)),
            Err(m) => group_spec(*n) == Err::<Seq<ElementView>, Seq<char>>(m@),
        },
{
    match &n.children {
        Some(c) => {
            proof {
                assert(decreases_to!(*n => n.children));
                assert(n.children == Some(*c));
            }
            match parse_children(n, c) {
                Ok(es) => Ok(Group { elements: es }),
                Err(e) => Err(e),
            }
        },
        None => {
            let es: Vec<Element> = Vec::new();
            assert(elements_view(es@, 0) =~= Seq::<ElementView>::empty());
            Ok(Group { elements: es })
        },
    }
}

/// The groups of a screen's child nodes named `group`.
fn parse_groups(c: &Vec<KdlNodeModel>) -> (res: Result<Vec<Group>, String>)
    ensures
        match res {
            Ok(v) => groups_spec(c@, 0) == Ok::<Seq<Seq<ElementView>>, Seq<char>>(v@.map_values(|g: Group| group_view(g))),
            Err(m) => groups_spec(c@, 0) == Err::<Seq<Seq<ElementView>>, Seq<char>>(m@),
        },
{
    proof { reveal_strlit("group"); }
    let mut out: Vec<Group> = Vec::new();
    let mut i: usize = 0;
    while i < c.len()
        invariant
            i <= c@.len(),
            groups_spec(c@, 0) == prepend(out@.map_values(|g: Group| group_view(g)), groups_spec(c@, i as int)),
        decreases c@.len() - i,
    {
        if str_eq(c[i].name.as_str(), "group") {
            match parse_group(&c[i]) {
                Err(e) => {
                    return Err(e);
                },
                Ok(g) => {
                    let ghost before = out@.map_values(|g: Group| group_view(g));
                    let ghost gv = group_view(g);
                    out.push(g);
                    proof {
                        assert(out@.map_values(|g: Group| group_view(g)) =~= before.push(gv));
                        match groups_spec(c@, i + 1) {
                            Ok(rest) => {
                                assert(before + (seq![gv] + rest) =~= before.push(gv) + rest);
                            },
                            Err(_) => {},
                        }
                    }
                },
            }
        }
        i = i + 1;
    }
    assert(out@.map_values(|g: Group| group_view(g)) + Seq::<Seq<ElementView>>::empty()
        =~= out@.map_values(|g: Group| group_view(g)));
    Ok(out)
}

/// The screen a `screen` node describes.
pub fn parse_screen(n: &KdlNodeModel) -> (res: Result<Screen, String>)
    ensures
        match res {
            Ok(sc) => screen_spec(*n) == Ok::<ScreenView, Seq<char>>(screen_view(sc)),
            Err(m) => screen_spec(*n) == Err::<ScreenView, Seq<char>>(m@),
        },
{
    let name = match node_arg_str(n) {
        Some(s) => s,
        None => {
            return Err(String::from_str("screen node requires a name string argument"));
        },
    };
    let title = match find_child(&n.children, "title") {
        Some(t) => match node_arg_str(t) {
            Some(x) => x,
            None => name.clone(),
        },
        None => name.clone(),
    };
    let groups = match &n.children {
        Some(c) => match parse_groups(c) {
            Ok(g) => g,
            Err(e) => {
                return Err(e);
            },
        },
        None => {
            let g: Vec<Group> = Vec::new();
            assert(g@.map_values(|x: Group| group_view(x)) =~= Seq::<Seq<ElementView>>::empty());
            g
        },
    };
    Ok(Screen { name, title, groups })
}

/// The screens of a document's nodes named `screen`.
fn parse_screens(nodes: &Vec<KdlNodeModel>) -> (res: Result<Vec<Screen>, String>)
    ensures
        match res {
            Ok(v) => screens_spec(nodes@, 0) == Ok::<Seq<ScreenView>, Seq<char>>(v@.map_values(|s: Screen| screen_view(s))),
            Err(m) => screens_spec(nodes@, 0) == Err::<Seq<ScreenView>, Seq<char>>(m@),
        },
{
    proof { reveal_strlit("screen"); }
    let mut out: Vec<Screen> = Vec::new();
    let mut i: usize = 0;
    while i < nodes.len()
        invariant
            i <= nodes@.len(),
            screens_spec(nodes@, 0) == prepend(out@.map_values(|s: Screen| screen_view(s)), screens_spec(nodes@, i as int)),
        decreases nodes@.len() - i,
    {
        if str_eq(nodes[i].name.as_str(), "screen") {
            match parse_screen(&nodes[i]) {
                Err(e) => {
                    return Err(e);
                },
                Ok(sc) => {
                    let ghost before = out@.map_values(|s: Screen| screen_view(s));
                    let ghost sv = screen_view(sc);
                    out.push(sc);
                    proof {
                        assert(out@.map_values(|s: Screen| screen_view(s)) =~= before.push(sv));
                        match screens_spec(nodes@, i + 1) {
                            Ok(rest) => {
                                assert(before + (seq![sv] + rest) =~= before.push(sv) + rest);
                            },
                            Err(_) => {},
                        }
                    }
                },
            }
        }
        i = i + 1;
    }
    assert(out@.map_values(|s: Screen| screen_view(s)) + Seq::<ScreenView>::empty()
        =~= out@.map_values(|s: Screen| screen_view(s)));
    Ok(out)
}

/// The server a document names.
pub fn parse_server(nodes: &Vec<KdlNodeModel>) -> (res: Result<ServerConfig, String>)
    ensures
        match res {
            Ok(c) => server_spec(nodes@) == Ok::<(Seq<char>, u16), Seq<char>>((c.host@, c.port)),
            Err(m) => server_spec(nodes@) == Err::<(Seq<char>, u16), Seq<char>>(m@),
        },
{
    match find_node(nodes, "server") {
        None => Ok(ServerConfig { host: String::from_str("127.0.0.1"), port: 31337 }),
        Some(i) => {
            let host = match node_arg_str(&nodes[i]) {
                Some(h) => h,
                None => {
                    return Err(String::from_str("server node requires a host string argument"));
                },
            };
            let port: u16 = match node_prop_int(&nodes[i], "port") {
                Some(p) => p as u16,
                None => 31337,
            };
            Ok(ServerConfig { host, port })
        },
    }
}

/// The window size a document sets.
pub fn parse_window(nodes: &Vec<KdlNodeModel>) -> (res: WindowConfig)
    ensures
        res.width == window_dim(nodes@, "width"@, 420),
        res.height == window_dim(nodes@, "height"@, 900),
{
    match find_node(nodes, "window") {
        Some(i) => {
            let width: i32 = match node_prop_int(&nodes[i], "width") {
                Some(v) => v as i32,
                None => 420,
            };
            let height: i32 = match node_prop_int(&nodes[i], "height") {
                Some(v) => v as i32,
                None => 900,
            };
            WindowConfig { width, height }
        },
        None => WindowConfig { width: 420, height: 900 },
    }
}

/// Reads the client configuration out of the nodes of a KDL document.
pub fn config_from_nodes(nodes: &Vec<KdlNodeModel>) -> (res: Result<AppConfig, String>)
    ensures
        match res {
            Ok(c) => config_spec(nodes@) == Ok::<AppConfigView, Seq<char>>(app_config_view(c)),
            Err(m) => config_spec(nodes@) == Err::<AppConfigView, Seq<char>>(m@),
        },
{
    let server = parse_server(nodes)?;
    let window = parse_window(nodes);
    let screens = parse_screens(nodes)?;
    Ok(AppConfig { server, window, screens })
}

/// Reads the client configuration from the text of its file: older booleans are rewritten,
/// the text is parsed as KDL, then the server, window and screens are read out of it.
pub fn parse_config(content: &str) -> (res: Result<AppConfig, String>)
    ensures
        match res {
            Ok(c) => parse_config_spec(content@) == Ok::<AppConfigView, Seq<char>>(app_config_view(c)),
            Err(m) => parse_config_spec(content@) == Err::<AppConfigView, Seq<char>>(m@),
        },
        kdl_document(kdl_compat(content@)) is Err ==> (res matches Err(m)
            && m@ == "KDL parse error: "@ + "Failed to parse KDL document"@),
{
    let text = preprocess_kdl_v1_compat(content);
    match parse_kdl(text.as_str()) {
        Err(e) => {
            let mut m = String::from_str("KDL parse error: ");
            m.append(e.as_str());
            Err(m)
        },
        Ok(nodes) => config_from_nodes(&nodes),
    }
}

/// The position of the first device named `name`, searching from `i`.
pub open spec fn named_from(devices: Seq<DeviceStateView>, name: Seq<char>, i: int) -> Option<int>
    decreases devices.len() - i,
{
    if i < 0 || i >= devices.len() {
        None
    } else if devices[i].device_info.name@ == name {
        Some(i)
    } else {
        named_from(devices, name, i + 1)
    }
}

/// The device an element means: its id as given, or the id of the first known device with the
/// given name.
pub open spec fn resolved_device(r: DeviceRefView, devices: Seq<DeviceStateView>) -> Option<Seq<char>> {
    match r {
        DeviceRefView::ById(id) => Some(id),
        DeviceRefView::ByName(name) => match named_from(devices, name, 0) {
            Some(i) => Some(devices[i].device_id@),
            None => None,
        },
    }
}

/// The id of the device an element means among the known devices.
pub fn resolve_device_ref(device_ref: &DeviceRef, devices: &Vec<DeviceState>) -> (res: Option<String>)
    ensures
        match res {
            Some(id) => resolved_device(device_ref_view(*device_ref), devices@.map_values(|d: DeviceState| d@)) == Some(id@),
            None => resolved_device(device_ref_view(*device_ref), devices@.map_values(|d: DeviceState| d@)) is None,
        },
{
    match device_ref {
        DeviceRef::ById(id) => Some(id.clone()),
        DeviceRef::ByName(name) => {
            let ghost ds = devices@.map_values(|d: DeviceState| d@);
            let mut i: usize = 0;
            while i < devices.len()
                invariant
                    i <= devices@.len(),
                    ds == devices@.map_values(|d: DeviceState| d@),
                    named_from(ds, name@, 0) == named_from(ds, name@, i as int),
                    device_ref_view(*device_ref) == DeviceRefView::ByName(name@),
                decreases devices@.len() - i,
            {
                assert(ds[i as int] == devices@[i as int]@);
                if str_eq(devices[i].device_info.name.as_str(), name.as_str()) {
                    assert(named_from(ds, name@, i as int) == Some(i as int));
                    assert(ds[i as int].device_id == devices@[i as int].device_id);
                    return Some(devices[i].device_id.clone());
                }
                i = i + 1;
            }
            None
        },
    }
}


/// The position of the first device with id `id`, searching from `i`.
pub open spec fn with_id_from(devices: Seq<DeviceStateView>, id: Seq<char>, i: int) -> Option<int>
    decreases devices.len() - i,
{
    if i < 0 || i >= devices.len() {
        None
    } else if devices[i].device_id@ == id {
        Some(i)
    } else {
        with_id_from(devices, id, i + 1)
    }
}

/// Whether the first known device with id `id` reports an outlet state.
pub open spec fn is_outlet_device(devices: Seq<DeviceStateView>, id: Seq<char>) -> bool {
    match with_id_from(devices, id, 0) {
        Some(i) => devices[i].state is Outlet,
        None => false,
    }
}

/// The id an element's widget is bound to: the device its reference resolves to, or the empty
/// id when it resolves to none.
pub open spec fn bound_device(r: DeviceRefView, devices: Seq<DeviceStateView>) -> Seq<char> {
    match resolved_device(r, devices) {
        Some(id) => id,
        None => Seq::empty(),
    }
}

/// The row widget an element that names a device is shown with.
#[derive(Debug)]
pub enum WidgetPlan {
    LightRow { device_id: String, show_switch: bool, show_slider: bool },
    OutletRow { device_id: String },
    SensorRow { device_id: String, show_temp: bool, show_humidity: bool },
}

/// Whether a known device with id `id` reports an outlet state (the first one with that id).
pub fn device_is_outlet(id: &String, devices: &Vec<DeviceState>) -> (res: bool)
    ensures
        res == is_outlet_device(devices@.map_values(|d: DeviceState| d@), id@),
{
    let ghost ds = devices@.map_values(|d: DeviceState| d@);
    let mut i: usize = 0;
    while i < devices.len()
        invariant
            i <= devices@.len(),
            ds == devices@.map_values(|d: DeviceState| d@),
            with_id_from(ds, id@, 0) == with_id_from(ds, id@, i as int),
        decreases devices@.len() - i,
    {
        assert(ds[i as int] == devices@[i as int]@);
        if str_eq(devices[i].device_id.as_str(), id.as_str()) {
            assert(with_id_from(ds, id@, i as int) == Some(i as int));
            return match &devices[i].state {
                DeviceStateValue::Outlet(_) => true,
                _ => false,
            };
        }
        i = i + 1;
    }
    false
}

/// The id an element's widget is bound to.
fn bound_device_id(device_ref: &DeviceRef, devices: &Vec<DeviceState>) -> (res: String)
    ensures
        res@ == bound_device(device_ref_view(*device_ref), devices@.map_values(|d: DeviceState| d@)),
{
    match resolve_device_ref(device_ref, devices) {
        Some(id) => id,
        None => String::new(),
    }
}

/// The widget for an element that names a device, `None` for text and blocks. A light element
/// whose device reports an outlet state is shown as an outlet, since users often declare
/// control outlets that drive lamps as lights; an unresolved device is shown as declared.
pub fn widget_plan(element: &Element, devices: &Vec<DeviceState>) -> (res: Option<WidgetPlan>)
    ensures
        match *element {
            Element::Light { device_ref, show_switch, show_slider, .. } => {
                let ds = devices@.map_values(|d: DeviceState| d@);
                let id = bound_device(device_ref_view(device_ref), ds);
                if is_outlet_device(ds, id) {
                    res matches Some(WidgetPlan::OutletRow { device_id }) && device_id@ == id
                } else {
                    res matches Some(WidgetPlan::LightRow { device_id, show_switch: a, show_slider: b })
                        && device_id@ == id && a == show_switch && b == show_slider
                }
            },
            Element::Outlet { device_ref, .. } => res matches Some(WidgetPlan::OutletRow { device_id })
                && device_id@ == bound_device(device_ref_view(device_ref), devices@.map_values(|d: DeviceState| d@)),
            Element::Sensor { device_ref, show_temp, show_humidity } =>
                res matches Some(WidgetPlan::SensorRow { device_id, show_temp: a, show_humidity: b })
                && device_id@ == bound_device(device_ref_view(device_ref), devices@.map_values(|d: DeviceState| d@))
                && a == show_temp && b == show_humidity,
            Element::Text { .. } => res is None,
            Element::Block { .. } => res is None,
        },
{
    match element {
        Element::Light { device_ref, show_switch, show_slider, .. } => {
            let device_id = bound_device_id(device_ref, devices);
            if device_is_outlet(&device_id, devices) {
                Some(WidgetPlan::OutletRow { device_id })
            } else {
                Some(WidgetPlan::LightRow { device_id, show_switch: *show_switch, show_slider: *show_slider })
            }
        },
        Element::Outlet { device_ref, .. } => Some(WidgetPlan::OutletRow { device_id: bound_device_id(device_ref, devices) }),
        Element::Sensor { device_ref, show_temp, show_humidity } => Some(WidgetPlan::SensorRow {
            device_id: bound_device_id(device_ref, devices),
            show_temp: *show_temp,
            show_humidity: *show_humidity,
        }),
        Element::Text { .. } => None,
        Element::Block { .. } => None,
    }
}

} // verus!
