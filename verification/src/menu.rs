//! The menu tree: nodes holding ordered items, each item an action handler or
//! a child menu, and the one-time structural validation run before a session
//! starts.
//!
//! Each attachment of a submenu owns its own node, so a node's position in the
//! tree identifies it; menus are not shared across parents.

use vstd::prelude::*;
use crate::chars::{chars_eq, chars_of_str, fold_case, fold_chars};
use crate::error::{is_reserved_key, reserved_key, IstariError};
use crate::types::ActionType;

verus! {

use vstd::string::StringExecFns;

/// One selectable entry of a menu: the key that activates it, a description
/// shown beside it, and either an action handler or a child menu.
#[derive(Debug)]
pub struct MenuItem {
    /// The key that activates this item, compared case-insensitively.
    pub key: String,
    /// What this item does, for display.
    pub description: String,
    /// The action to run, or the menu to enter.
    pub payload: ItemPayload,
}

/// What selecting an item does: exactly one of an action or a submenu.
#[derive(Debug)]
pub enum ItemPayload {
    /// Run a handler.
    Action(ActionType),
    /// Enter a child menu.
    Submenu(Menu),
}

/// A menu: a titled, ordered list of items. Items are matched in order; the
/// first item whose folded key equals the folded command wins.
#[derive(Debug)]
pub struct Menu {
    /// Title of the menu.
    pub title: String,
    /// Items in this menu, in display and match order.
    pub items: Vec<MenuItem>,
}

/// Whether an item's key, folded, equals the folded command.
pub open spec fn item_matches(it: MenuItem, cmd: Seq<char>) -> bool {
    fold_case(it.key@) == cmd
}

/// The first item whose folded key equals `cmd`, if any.
pub open spec fn find_item(items: Seq<MenuItem>, cmd: Seq<char>) -> Option<int>
    decreases items.len(),
{
    if items.len() == 0 {
        None
    } else if item_matches(items[0], cmd) {
        Some(0)
    } else {
        match find_item(items.drop_first(), cmd) {
            Some(i) => Some(i + 1),
            None => None,
        }
    }
}

/// What `find_item` returns: the first match, or nothing when no item
/// matches.
pub proof fn lemma_find_item_props(items: Seq<MenuItem>, cmd: Seq<char>)
    ensures
        match find_item(items, cmd) {
            Some(i) => 0 <= i < items.len() && item_matches(items[i], cmd) && (forall|j: int|
                0 <= j < i ==> !item_matches(items[j], cmd)),
            None => forall|j: int| 0 <= j < items.len() ==> !item_matches(items[j], cmd),
        },
    decreases items.len(),
{
    if items.len() > 0 && !item_matches(items[0], cmd) {
        let d = items.drop_first();
        lemma_find_item_props(d, cmd);
        assert(forall|j: int| 0 <= j < d.len() ==> #[trigger] d[j] == items[j + 1]);
        match find_item(d, cmd) {
            Some(i0) => {
                assert(find_item(items, cmd) == Some(i0 + 1));
                assert(item_matches(items[i0 + 1], cmd));
                assert forall|j: int| 0 <= j < i0 + 1 implies !item_matches(items[j], cmd) by {
                    if j > 0 {
                        assert(!item_matches(d[j - 1], cmd));
                    }
                }
            },
            None => {
                assert forall|j: int|
                    0 <= j < items.len() implies !item_matches(items[j], cmd) by {
                    if j > 0 {
                        assert(!item_matches(d[j - 1], cmd));
                    }
                }
            },
        }
    }
}

/// A scan that saw no match through index `i` agrees with `find_item`: no
/// match at all if the scan is over, the first match if item `i` matches.
pub proof fn lemma_find_item_scan(items: Seq<MenuItem>, cmd: Seq<char>, i: int)
    requires
        0 <= i <= items.len(),
        forall|j: int| 0 <= j < i ==> !item_matches(items[j], cmd),
    ensures
        i == items.len() ==> find_item(items, cmd) is None,
        i < items.len() && item_matches(items[i], cmd) ==> find_item(items, cmd) == Some(i),
    decreases i,
{
    if i > 0 {
        lemma_find_item_scan(items.drop_first(), cmd, i - 1);
    }
}

/// The keys of one node are acceptable: none is reserved and no two fold to
/// the same word.
pub open spec fn node_keys_ok(m: Menu) -> bool {
    &&& forall|i: int|
        0 <= i < m.items@.len() ==> !reserved_key(#[trigger] fold_case(m.items@[i].key@))
    &&& forall|i: int, j: int|
        0 <= i < j < m.items@.len() ==> #[trigger] fold_case(m.items@[i].key@)
            != #[trigger] fold_case(m.items@[j].key@)
}

/// Every node reachable from `m` has acceptable keys.
pub open spec fn menu_valid(m: Menu) -> bool
    decreases m,
{
    &&& node_keys_ok(m)
    &&& forall|i: int|
        0 <= i < m.items@.len() ==> match #[trigger] m.items@[i].payload {
            ItemPayload::Submenu(sub) => menu_valid(sub),
            ItemPayload::Action(_) => true,
        }
}

/// Whether `n` is `m` itself or a node somewhere below it.
pub open spec fn subnode(m: Menu, n: Menu) -> bool
    decreases m,
{
    m == n || exists|i: int|
        0 <= i < m.items@.len() && match #[trigger] m.items@[i].payload {
            ItemPayload::Submenu(sub) => subnode(sub, n),
            ItemPayload::Action(_) => false,
        }
}

/// Some node reachable from `root` has title `t` and an item whose key is `k`,
/// a reserved word after folding.
pub open spec fn reserved_witness(root: Menu, k: Seq<char>, t: Seq<char>) -> bool {
    exists|n: Menu|
        #[trigger] subnode(root, n) && n.title@ == t && reserved_key(fold_case(k)) && exists|i: int|
            0 <= i < n.items@.len() && (#[trigger] n.items@[i]).key@ == k
}

/// Some node reachable from `root` has title `t` and two items whose keys fold
/// to the same word, the later of which is `k`.
pub open spec fn duplicate_witness(root: Menu, k: Seq<char>, t: Seq<char>) -> bool {
    exists|n: Menu|
        #[trigger] subnode(root, n) && n.title@ == t && exists|i: int, j: int|
            0 <= i < j < n.items@.len() && fold_case(#[trigger] n.items@[i].key@) == fold_case(
                #[trigger] n.items@[j].key@,
            ) && n.items@[j].key@ == k
}

/// The first offense met at or after item `i` of `m`, walking depth-first in
/// item order and descending into a submenu before the next sibling: `true`
/// with the key and node title for a duplicate, `false` with them for a
/// reserved key. For one item the reserved check comes first, so a duplicated
/// reserved key counts as reserved.
pub open spec fn fault_from(m: Menu, i: int) -> Option<(bool, Seq<char>, Seq<char>)>
    decreases m, m.items@.len() - i,
{
    if !(0 <= i < m.items@.len()) {
        None
    } else if reserved_key(fold_case(m.items@[i].key@)) {
        Some((false, m.items@[i].key@, m.title@))
    } else if exists|j: int|
        0 <= j < i && fold_case(#[trigger] m.items@[j].key@) == fold_case(m.items@[i].key@) {
        Some((true, m.items@[i].key@, m.title@))
    } else {
        match m.items@[i].payload {
            ItemPayload::Submenu(sub) => match fault_from(sub, 0) {
                Some(f) => Some(f),
                None => fault_from(m, i + 1),
            },
            ItemPayload::Action(_) => fault_from(m, i + 1),
        }
    }
}

/// The first offense of the whole tree, in depth-first item order.
pub open spec fn first_fault(m: Menu) -> Option<(bool, Seq<char>, Seq<char>)> {
    fault_from(m, 0)
}

/// Law: a valid tree has no offense for the walk to find.
pub proof fn lemma_valid_no_fault(m: Menu, i: int)
    requires
        menu_valid(m),
        0 <= i,
    ensures
        fault_from(m, i) is None,
    decreases m, m.items@.len() - i,
{
    if i < m.items@.len() {
        assert(!reserved_key(fold_case(m.items@[i].key@)));
        assert(forall|j: int|
            0 <= j < i ==> fold_case(#[trigger] m.items@[j].key@) != fold_case(
                m.items@[i].key@,
            ));
        match m.items@[i].payload {
            ItemPayload::Submenu(sub) => {
                assert(menu_valid(sub));
                lemma_valid_no_fault(sub, 0);
                lemma_valid_no_fault(m, i + 1);
            },
            ItemPayload::Action(_) => {
                lemma_valid_no_fault(m, i + 1);
            },
        }
    }
}

/// A node below a child is a node below the parent.
proof fn lemma_subnode_step(m: Menu, i: int, sub: Menu, n: Menu)
    requires
        0 <= i < m.items@.len(),
        m.items@[i].payload == ItemPayload::Submenu(sub),
        subnode(sub, n),
    ensures
        subnode(m, n),
{
}

proof fn lemma_valid_down(m: Menu, n: Menu)
    requires
        menu_valid(m),
        subnode(m, n),
    ensures
        node_keys_ok(n),
    decreases m,
{
    if m != n {
        let i = choose|i: int|
            0 <= i < m.items@.len() && match #[trigger] m.items@[i].payload {
                ItemPayload::Submenu(sub) => subnode(sub, n),
                ItemPayload::Action(_) => false,
            };
        match m.items@[i].payload {
            ItemPayload::Submenu(sub) => {
                lemma_valid_down(sub, n);
            },
            ItemPayload::Action(_) => {},
        }
    }
}

proof fn lemma_valid_up(m: Menu)
    requires
        forall|n: Menu| #[trigger] subnode(m, n) ==> node_keys_ok(n),
    ensures
        menu_valid(m),
    decreases m,
{
    assert(subnode(m, m));
    assert forall|i: int|
        0 <= i < m.items@.len() implies match #[trigger] m.items@[i].payload {
        ItemPayload::Submenu(sub) => menu_valid(sub),
        ItemPayload::Action(_) => true,
    } by {
        match m.items@[i].payload {
            ItemPayload::Submenu(sub) => {
                assert forall|n: Menu| #[trigger] subnode(sub, n) implies node_keys_ok(n) by {
                    lemma_subnode_step(m, i, sub, n);
                }
                lemma_valid_up(sub);
            },
            ItemPayload::Action(_) => {},
        }
    }
}

/// Law: a tree is valid exactly when no node reachable from it — at any
/// depth — holds a reserved key or two keys that fold to the same word; so
/// validation fails exactly when some reachable node does.
pub proof fn lemma_valid_iff_no_offending_node(m: Menu)
    ensures
        menu_valid(m) <==> (forall|n: Menu| #[trigger] subnode(m, n) ==> node_keys_ok(n)),
{
    if menu_valid(m) {
        assert forall|n: Menu| #[trigger] subnode(m, n) implies node_keys_ok(n) by {
            lemma_valid_down(m, n);
        }
    }
    if forall|n: Menu| #[trigger] subnode(m, n) ==> node_keys_ok(n) {
        lemma_valid_up(m);
    }
}

/// Two fold-equal keys inside one node witness a duplicate at that node.
proof fn lemma_duplicate_here(m: Menu, i: int, j: int)
    requires
        0 <= i < j < m.items@.len(),
        fold_case(m.items@[i].key@) == fold_case(m.items@[j].key@),
    ensures
        duplicate_witness(m, m.items@[j].key@, m.title@),
{
    assert(subnode(m, m));
    assert(exists|ii: int, jj: int|
        0 <= ii < jj < m.items@.len() && fold_case(#[trigger] m.items@[ii].key@) == fold_case(
            #[trigger] m.items@[jj].key@,
        ) && m.items@[jj].key@ == m.items@[j].key@) by {
        assert(fold_case(m.items@[i].key@) == fold_case(m.items@[j].key@));
    }
}

/// What a deep copy keeps of a menu: the title, and item for item everything
/// that [`item_similar`] keeps.
pub open spec fn menu_similar(a: Menu, b: Menu) -> bool
    decreases a,
{
    &&& b.title == a.title
    &&& b.items@.len() == a.items@.len()
    &&& forall|i: int|
        0 <= i < a.items@.len() ==> item_similar(#[trigger] a.items@[i], b.items@[i])
}

/// What a deep copy keeps of an item: the key, the description, an action
/// unchanged, and of a submenu the whole subtree.
pub open spec fn item_similar(a: MenuItem, b: MenuItem) -> bool
    decreases a,
{
    &&& b.key == a.key
    &&& b.description == a.description
    &&& match a.payload {
        ItemPayload::Action(t) => b.payload == ItemPayload::Action(t),
        ItemPayload::Submenu(sa) => b.payload matches ItemPayload::Submenu(sb) && menu_similar(
            sa,
            sb,
        ),
    }
}

impl Default for Menu {
    /// An empty menu titled "Menu".
    fn default() -> (r: Menu)
        ensures
            r.title@ == "Menu"@,
            r.items@.len() == 0,
    {
        Menu { title: String::from_str("Menu"), items: Vec::new() }
    }
}

impl Clone for Menu {
    /// A deep copy of the whole subtree: same title, and item for item the
    /// same keys, descriptions, actions and submenu subtrees.
    fn clone(&self) -> (r: Menu)
        ensures
            menu_similar(*self, r),
        decreases *self,
    {
        let n = self.items.len();
        let mut items: Vec<MenuItem> = Vec::new();
        let mut i: usize = 0;
        while i < n
            invariant
                i <= n,
                n == self.items@.len(),
                items@.len() == i,
                forall|j: int|
                    0 <= j < i ==> item_similar(self.items@[j], #[trigger] items@[j]),
            decreases n - i,
        {
            proof {
                assert(decreases_to!(*self => self.items@[i as int]));
            }
            items.push(self.items[i].clone());
            i = i + 1;
        }
        Menu { title: self.title.clone(), items }
    }
}

impl Clone for MenuItem {
    /// A copy of the item, its subtree included.
    fn clone(&self) -> (r: MenuItem)
        ensures
            item_similar(*self, r),
        decreases *self,
    {
        MenuItem {
            key: self.key.clone(),
            description: self.description.clone(),
            payload: self.payload.clone(),
        }
    }
}

impl Clone for ItemPayload {
    /// A copy of the payload: an action unchanged, a submenu copied deeply.
    fn clone(&self) -> (r: ItemPayload)
        ensures
            (*self) matches ItemPayload::Action(t) ==> r == ItemPayload::Action(t),
            (*self) matches ItemPayload::Submenu(sa) ==> (r matches ItemPayload::Submenu(sb)
                && menu_similar(sa, sb)),
        decreases *self,
    {
        match self {
            ItemPayload::Action(a) => ItemPayload::Action(*a),
            ItemPayload::Submenu(m) => ItemPayload::Submenu(m.clone()),
        }
    }
}

impl MenuItem {
    /// A new item that runs the given handler.
    pub fn new_action(key: String, description: String, action: ActionType) -> (r: MenuItem)
        ensures
            r.key == key,
            r.description == description,
            r.payload == ItemPayload::Action(action),
    {
        MenuItem { key, description, payload: ItemPayload::Action(action) }
    }

    /// A new item that leads into the given submenu.
    pub fn new_submenu(key: String, description: String, submenu: Menu) -> (r: MenuItem)
        ensures
            r.key == key,
            r.description == description,
            r.payload == ItemPayload::Submenu(submenu),
    {
        MenuItem { key, description, payload: ItemPayload::Submenu(submenu) }
    }
}

impl Menu {
    /// A new, empty menu with the given title.
    pub fn new(title: String) -> (r: Menu)
        ensures
            r.title == title,
            r.items@.len() == 0,
    {
        Menu { title, items: Vec::new() }
    }

    /// Append an item to this menu.
    pub fn add_item(&mut self, item: MenuItem)
        ensures
            final(self).title == old(self).title,
            final(self).items@ == old(self).items@.push(item),
    {
        self.items.push(item);
    }

    /// Append an action item to this menu.
    pub fn add_action(&mut self, key: String, description: String, action: ActionType)
        ensures
            final(self).title == old(self).title,
            final(self).items@.len() == old(self).items@.len() + 1,
            final(self).items@.last().key == key,
            final(self).items@.last().description == description,
            final(self).items@.last().payload == ItemPayload::Action(action),
            final(self).items@.drop_last() == old(self).items@,
    {
        self.add_item(MenuItem::new_action(key, description, action));
        proof {
            assert(final(self).items@.drop_last() =~= old(self).items@);
        }
    }

    /// Append a submenu item to this menu.
    pub fn add_submenu(&mut self, key: String, description: String, submenu: Menu)
        ensures
            final(self).title == old(self).title,
            final(self).items@.len() == old(self).items@.len() + 1,
            final(self).items@.last().key == key,
            final(self).items@.last().description == description,
            final(self).items@.last().payload == ItemPayload::Submenu(submenu),
            final(self).items@.drop_last() == old(self).items@,
    {
        self.add_item(MenuItem::new_submenu(key, description, submenu));
        proof {
            assert(final(self).items@.drop_last() =~= old(self).items@);
        }
    }

    /// The first item whose key matches (case-insensitively), if any.
    pub fn get_item<'a>(&'a self, key: &str) -> (r: Option<&'a MenuItem>)
        ensures
            match find_item(self.items@, fold_case(key@)) {
                Some(i) => r matches Some(it) && *it == self.items@[i],
                None => r is None,
            },
    {
        let kc = chars_of_str(key);
        let folded = fold_chars(&kc);
        let idx = self.find_index(&folded);
        proof {
            crate::chars::lemma_fold_idempotent(key@);
            lemma_find_item_props(self.items@, fold_case(key@));
        }
        match idx {
            Some(i) => Some(&self.items[i]),
            None => None,
        }
    }

    /// The index of the first item whose folded key equals the folded form of
    /// `cmd`, if any.
    pub fn find_index(&self, cmd: &Vec<char>) -> (r: Option<usize>)
        ensures
            r matches Some(u) ==> find_item(self.items@, fold_case(cmd@)) == Some(u as int),
            r is None ==> find_item(self.items@, fold_case(cmd@)) is None,
    {
        let target = fold_chars(cmd);
        let n = self.items.len();
        let mut i: usize = 0;
        while i < n
            invariant
                i <= n,
                n == self.items@.len(),
                target@ == fold_case(cmd@),
                forall|j: int| 0 <= j < i ==> !item_matches(self.items@[j], fold_case(cmd@)),
            decreases n - i,
        {
            let kc = chars_of_str(self.items[i].key.as_str());
            let fk = fold_chars(&kc);
            if chars_eq(&fk, &target) {
                proof {
                    lemma_find_item_scan(self.items@, fold_case(cmd@), i as int);
                }
                return Some(i);
            }
            i = i + 1;
        }
        proof {
            lemma_find_item_scan(self.items@, fold_case(cmd@), n as int);
        }
        None
    }

    /// Check every reachable node for reserved and duplicate keys. Succeeds
    /// exactly on valid trees; an error names the first offense met in
    /// depth-first item order — a submenu before the next sibling, and for one
    /// item the reserved check before the duplicate check — with the title of
    /// the node holding it.
    pub fn validate_menu(menu: &Menu) -> (r: Result<(), IstariError>)
        ensures
            r is Ok <==> menu_valid(*menu),
            r matches Err(IstariError::ReservedCommand(k, t)) ==> reserved_witness(*menu, k@, t@)
                && first_fault(*menu) == Some((false, k@, t@)),
            r matches Err(IstariError::DuplicateCommand(k, t)) ==> duplicate_witness(*menu, k@, t@)
                && first_fault(*menu) == Some((true, k@, t@)),
        decreases *menu,
    {
        let n = menu.items.len();
        let mut seen: Vec<Vec<char>> = Vec::new();
        let mut i: usize = 0;
        while i < n
            invariant
                i <= n,
                n == menu.items@.len(),
                seen@.len() == i,
                forall|j: int| 0 <= j < i ==> #[trigger] seen@[j]@ == fold_case(
                    menu.items@[j].key@,
                ),
                forall|j: int|
                    0 <= j < i ==> !reserved_key(#[trigger] fold_case(menu.items@[j].key@)),
                forall|j: int, l: int|
                    0 <= j < l < i ==> #[trigger] fold_case(menu.items@[j].key@) != #[trigger] fold_case(
                        menu.items@[l].key@,
                    ),
                forall|j: int|
                    0 <= j < i ==> match #[trigger] menu.items@[j].payload {
                        ItemPayload::Submenu(sub) => menu_valid(sub),
                        ItemPayload::Action(_) => true,
                    },
                first_fault(*menu) == fault_from(*menu, i as int),
            decreases n - i,
        {
            let item = &menu.items[i];
            let kc = chars_of_str(item.key.as_str());
            let fk = fold_chars(&kc);
            if is_reserved_key(&fk) {
                proof {
                    assert(subnode(*menu, *menu));
                    assert(!menu_valid(*menu));
                    assert(fault_from(*menu, i as int) == Some(
                        (false, menu.items@[i as int].key@, menu.title@),
                    ));
                }
                return Err(
                    IstariError::ReservedCommand(item.key.clone(), menu.title.clone()),
                );
            }
            let mut j: usize = 0;
            while j < i
                invariant
                    j <= i < n,
                    n == menu.items@.len(),
                    seen@.len() == i,
                    *item == menu.items@[i as int],
                    fk@ == fold_case(menu.items@[i as int].key@),
                    forall|l: int| 0 <= l < i ==> #[trigger] seen@[l]@ == fold_case(
                        menu.items@[l].key@,
                    ),
                    forall|l: int| 0 <= l < j ==> #[trigger] fold_case(menu.items@[l].key@)
                        != fold_case(menu.items@[i as int].key@),
                    !reserved_key(fold_case(menu.items@[i as int].key@)),
                    first_fault(*menu) == fault_from(*menu, i as int),
                decreases i - j,
            {
                if chars_eq(&seen[j], &fk) {
                    proof {
                        assert(fold_case(menu.items@[j as int].key@) == fold_case(
                            menu.items@[i as int].key@,
                        ));
                        lemma_duplicate_here(*menu, j as int, i as int);
                        assert(!menu_valid(*menu));
                        assert(fault_from(*menu, i as int) == Some(
                            (true, menu.items@[i as int].key@, menu.title@),
                        ));
                    }
                    return Err(
                        IstariError::DuplicateCommand(item.key.clone(), menu.title.clone()),
                    );
                }
                j = j + 1;
            }
            if let ItemPayload::Submenu(sub) = &item.payload {
                proof {
                    assert(menu.items@[i as int].payload matches ItemPayload::Submenu(s) && s
                        == *sub);
                }
                let res = Menu::validate_menu(sub);
                if let Err(e) = res {
                    proof {
                        assert(!menu_valid(*menu));
                        match &e {
                            IstariError::ReservedCommand(k, t) => {
                                let witness = choose|w: Menu|
                                    #[trigger] subnode(*sub, w) && w.title@ == t@ && reserved_key(
                                        fold_case(k@),
                                    ) && exists|ii: int|
                                        0 <= ii < w.items@.len() && (#[trigger] w.items@[ii]).key@
                                            == k@;
                                lemma_subnode_step(*menu, i as int, *sub, witness);
                            },
                            IstariError::DuplicateCommand(k, t) => {
                                let witness = choose|w: Menu|
                                    #[trigger] subnode(*sub, w) && w.title@ == t@ && exists|
                                        ii: int,
                                        jj: int,
                                    |
                                        0 <= ii < jj < w.items@.len() && fold_case(
                                            #[trigger] w.items@[ii].key@,
                                        ) == fold_case(#[trigger] w.items@[jj].key@)
                                            && w.items@[jj].key@ == k@;
                                lemma_subnode_step(*menu, i as int, *sub, witness);
                            },
                        }
                        assert(fault_from(*menu, i as int) == first_fault(*sub));
                    }
                    return Err(e);
                }
                proof {
                    lemma_valid_no_fault(*sub, 0);
                    assert(fault_from(*menu, i as int) == fault_from(*menu, i + 1 as int));
                }
            } else {
                proof {
                    assert(fault_from(*menu, i as int) == fault_from(*menu, i + 1 as int));
                }
            }
            seen.push(fk);
            i = i + 1;
        }
        proof {
            assert(menu_valid(*menu));
        }
        Ok(())
    }
}

} // verus!
