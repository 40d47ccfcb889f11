//! The application menu a script describes: a tree of submenus, items, check items and
//! separators, read from `menu.set`'s `menus` array.

use vstd::prelude::*;

use crate::chrome::{bool_or, items_arg, str_or};
use crate::config::{ensure_permission, permission_check};
use crate::json::{bool_member, items_view, json_view, lemma_items_view_index, owned, str_member, strs_view, Json, JsonV};

verus! {

/// A node of the application menu.
pub enum MenuNode {
    Separator,
    Submenu { label: String, items: Vec<MenuNode> },
    Check { id: String, label: String, enabled: bool, checked: bool, accelerator: Option<String> },
    Item { id: String, label: String, enabled: bool, accelerator: Option<String> },
}

pub enum MenuNodeV {
    Separator,
    Submenu { label: Seq<char>, items: Seq<MenuNodeV> },
    Check {
        id: Seq<char>,
        label: Seq<char>,
        enabled: bool,
        checked: bool,
        accelerator: Option<Seq<char>>,
    },
    Item { id: Seq<char>, label: Seq<char>, enabled: bool, accelerator: Option<Seq<char>> },
}

pub open spec fn opt_text(o: Option<String>) -> Option<Seq<char>> {
    match o {
        Some(s) => Some(s@),
        None => None,
    }
}

pub open spec fn node_view(n: MenuNode) -> MenuNodeV
    decreases n,
{
    match n {
        MenuNode::Separator => MenuNodeV::Separator,
        MenuNode::Submenu { label, items } => MenuNodeV::Submenu {
            label: label@,
            items: nodes_view(items@),
        },
        MenuNode::Check { id, label, enabled, checked, accelerator } => MenuNodeV::Check {
            id: id@,
            label: label@,
            enabled,
            checked,
            accelerator: opt_text(accelerator),
        },
        MenuNode::Item { id, label, enabled, accelerator } => MenuNodeV::Item {
            id: id@,
            label: label@,
            enabled,
            accelerator: opt_text(accelerator),
        },
    }
}

pub open spec fn nodes_view(s: Seq<MenuNode>) -> Seq<MenuNodeV>
    decreases s,
{
    if s.len() == 0 {
        Seq::empty()
    } else {
        nodes_view(s.drop_last()).push(node_view(s.last()))
    }
}

/// The node an item describes: a separator; a submenu when it has an `items` array (label
/// default `Item`); a check item when it has a boolean `checked`; else a plain item. Items
/// are enabled unless they say otherwise, and an item without an id is `menu:<label>`.
pub open spec fn menu_node_spec(item: JsonV) -> MenuNodeV
    decreases item, 1nat,
{
    if bool_or(item, "separator"@, false) {
        MenuNodeV::Separator
    } else {
        let label = str_or(item, "label"@, "Item"@);
        match item {
            JsonV::Object(m) => if m.contains_key("items"@) && m["items"@] is Array {
                MenuNodeV::Submenu { label, items: menu_nodes_spec(m["items"@]->Array_0) }
            } else {
                leaf_spec(item, label)
            },
            _ => leaf_spec(item, label),
        }
    }
}

/// The nodes of a list of items, in order.
pub open spec fn menu_nodes_spec(items: Seq<JsonV>) -> Seq<MenuNodeV>
    decreases items, 0nat,
{
    if items.len() == 0 {
        Seq::empty()
    } else {
        menu_nodes_spec(items.drop_last()).push(menu_node_spec(items.last()))
    }
}

/// A plain or check item.
pub open spec fn leaf_spec(item: JsonV, label: Seq<char>) -> MenuNodeV {
    let id = str_or(item, "id"@, "menu:"@ + label);
    let enabled = bool_or(item, "enabled"@, true);
    let accelerator = str_member(item, "accelerator"@);
    match bool_member(item, "checked"@) {
        Some(checked) => MenuNodeV::Check { id, label, enabled, checked, accelerator },
        None => MenuNodeV::Item { id, label, enabled, accelerator },
    }
}

fn leaf_of(item: &Json, label: String) -> (r: MenuNode)
    ensures
        node_view(r) == leaf_spec(item@, label@),
{
    let id = match item.str_member("id") {
        Some(s) => owned(s),
        None => String::from_str("menu:").concat(label.as_str()),
    };
    let enabled = match item.bool_member("enabled") {
        Some(b) => b,
        None => true,
    };
    let accelerator = match item.str_member("accelerator") {
        Some(s) => Some(owned(s)),
        None => None,
    };
    match item.bool_member("checked") {
        Some(checked) => MenuNode::Check { id, label, enabled, checked, accelerator },
        None => MenuNode::Item { id, label, enabled, accelerator },
    }
}

/// Reads one menu node.
pub fn menu_node(item: &Json) -> (r: MenuNode)
    ensures
        node_view(r) == menu_node_spec(item@),
    decreases item, 1nat,
{
    let sep = match item.bool_member("separator") {
        Some(b) => b,
        None => false,
    };
    if sep {
        return MenuNode::Separator;
    }
    let label = match item.str_member("label") {
        Some(s) => owned(s),
        None => owned("Item"),
    };
    match item {
        Json::Object(p) => {
            match item.get("items") {
                Some(Json::Array(children)) => {
                    proof {
                        assert(item@ == JsonV::Object(crate::json::members_view(p@)));
                        let k = crate::json::lemma_pairs_lookup_some(p@, "items"@);
                        assert(p@[k].1 == Json::Array(*children));
                        assert(decreases_to!(*item => *p));
                        assert(decreases_to!(*p => p@));
                        assert(decreases_to!(p@ => p@[k]));
                        assert(decreases_to!(p@[k] => p@[k].1));
                        assert(decreases_to!(Json::Array(*children) => *children));
                    }
                    let nodes = menu_nodes(children);
                    MenuNode::Submenu { label, items: nodes }
                },
                _ => leaf_of(item, label),
            }
        },
        _ => leaf_of(item, label),
    }
}

/// Reads a list of menu nodes.
pub fn menu_nodes(items: &Vec<Json>) -> (r: Vec<MenuNode>)
    ensures
        nodes_view(r@) == menu_nodes_spec(items_view(items@)),
    decreases items, 0nat,
{
    let ghost iv = items_view(items@);
    proof {
        lemma_items_view_index(items@);
    }
    let mut out: Vec<MenuNode> = Vec::new();
    let mut i: usize = 0;
    assert(iv.subrange(0, 0) =~= Seq::<JsonV>::empty());
    assert(out@ =~= Seq::<MenuNode>::empty());
    while i < items.len()
        invariant
            i <= items@.len(),
            iv == items_view(items@),
            iv.len() == items@.len(),
            forall|j: int| 0 <= j < items@.len() ==> #[trigger] iv[j] == json_view(items@[j]),
            nodes_view(out@) == menu_nodes_spec(iv.subrange(0, i as int)),
        decreases items@.len() - i,
    {
        let ghost after = iv.subrange(0, i + 1);
        assert(after.drop_last() =~= iv.subrange(0, i as int));
        assert(after.last() == json_view(items@[i as int]));
        let node = menu_node(&items[i]);
        let ghost before = out@;
        out.push(node);
        assert(out@.drop_last() =~= before);
        i += 1;
    }
    assert(iv.subrange(0, i as int) =~= iv);
    out
}

/// A top-level menu: a submenu labelled `label` (default `Menu`) with the nodes of `items`.
pub open spec fn top_menu_spec(spec: JsonV) -> MenuNodeV {
    MenuNodeV::Submenu {
        label: str_or(spec, "label"@, "Menu"@),
        items: match items_arg(spec) {
            Some(items) => menu_nodes_spec(items),
            None => Seq::empty(),
        },
    }
}

/// `menu.set`: the `menu` permission, then the top-level menus of `menus` (required).
pub open spec fn menu_set_spec(perms: Seq<Seq<char>>, args: JsonV) -> Result<Seq<MenuNodeV>, Seq<char>> {
    match permission_check(perms, "menu"@) {
        Err(e) => Err(e),
        Ok(()) => match member_array(args, "menus"@) {
            None => Err("menus array required"@),
            Some(menus) => Ok(menus.map_values(|m: JsonV| top_menu_spec(m))),
        },
    }
}

/// Member `k` when it is an array.
pub open spec fn member_array(j: JsonV, k: Seq<char>) -> Option<Seq<JsonV>> {
    match crate::json::member(j, k) {
        Some(JsonV::Array(items)) => Some(items),
        _ => None,
    }
}

fn top_menu(spec: &Json) -> (r: MenuNode)
    ensures
        node_view(r) == top_menu_spec(spec@),
{
    let label = match spec.str_member("label") {
        Some(s) => owned(s),
        None => owned("Menu"),
    };
    let items = match spec.get("items") {
        Some(Json::Array(children)) => menu_nodes(children),
        _ => Vec::new(),
    };
    proof {
        if items_arg(spec@) is None {
            assert(nodes_view(items@) =~= Seq::<MenuNodeV>::empty());
        }
    }
    MenuNode::Submenu { label, items }
}

/// Reads the menus of `menu.set`.
pub fn menu_set_plan(perms: &Vec<String>, args: &Json) -> (r: Result<Vec<MenuNode>, String>)
    ensures
        match menu_set_spec(strs_view(perms@), args@) {
            Err(e) => r matches Err(m) && m@ == e,
            Ok(ms) => r matches Ok(v) && v@.map_values(|n: MenuNode| node_view(n)) == ms,
        },
{
    match ensure_permission(perms, "menu") {
        Ok(()) => {},
        Err(e) => {
            return Err(e);
        },
    }
    let menus = match args.get("menus") {
        Some(Json::Array(menus)) => menus,
        _ => {
            return Err(owned("menus array required"));
        },
    };
    let ghost mv = items_view(menus@);
    proof {
        lemma_items_view_index(menus@);
    }
    let mut out: Vec<MenuNode> = Vec::new();
    let mut i: usize = 0;
    while i < menus.len()
        invariant
            i <= menus@.len(),
            mv == items_view(menus@),
            mv.len() == menus@.len(),
            forall|j: int| 0 <= j < menus@.len() ==> #[trigger] mv[j] == json_view(menus@[j]),
            out@.map_values(|n: MenuNode| node_view(n)) == mv.subrange(0, i as int).map_values(
                |m: JsonV| top_menu_spec(m),
            ),
        decreases menus@.len() - i,
    {
        let node = top_menu(&menus[i]);
        let ghost before = out@;
        let ghost nv = node_view(node);
        out.push(node);
        assert(out@.map_values(|n: MenuNode| node_view(n)) =~= before.map_values(
            |n: MenuNode| node_view(n),
        ).push(nv));
        assert(out@.map_values(|n: MenuNode| node_view(n)) =~= mv.subrange(0, i + 1).map_values(
            |m: JsonV| top_menu_spec(m),
        ));
        i += 1;
    }
    assert(mv.subrange(0, i as int) =~= mv);
    Ok(out)
}

} // verus!
