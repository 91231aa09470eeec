//! Navigation over a validated menu tree: a current position, moves into
//! submenus and back out, and action lookup at the current node.
//!
//! The position is the path of item indices from the root, so "go back" always
//! returns to the exact node the submenu was entered from, and a node's
//! identity is its place in the tree.

use vstd::prelude::*;
use crate::chars::{chars_of_str, fold_case};
use crate::error::IstariError;
use crate::menu::{
    duplicate_witness, find_item, first_fault, lemma_find_item_props, menu_valid, reserved_witness,
    ItemPayload, Menu,
};
use crate::types::{ActionRunner, ActionType};

verus! {

/// Whether `p` is a valid path from `m`: every step lands on a submenu item.
pub open spec fn path_ok(m: Menu, p: Seq<usize>) -> bool
    decreases p.len(),
{
    p.len() == 0 || {
        &&& (p[0] as int) < m.items@.len()
        &&& match m.items@[p[0] as int].payload {
            ItemPayload::Submenu(sub) => path_ok(sub, p.drop_first()),
            ItemPayload::Action(_) => false,
        }
    }
}

/// The node that the path `p` leads to from `m`.
pub open spec fn node_at(m: Menu, p: Seq<usize>) -> Menu
    decreases p.len(),
{
    if p.len() == 0 {
        m
    } else {
        match m.items@[p[0] as int].payload {
            ItemPayload::Submenu(sub) => node_at(sub, p.drop_first()),
            ItemPayload::Action(_) => m,
        }
    }
}

/// A path extended by a submenu item of its end node is a valid path, and it
/// leads to that submenu.
pub proof fn lemma_path_push(m: Menu, p: Seq<usize>, i: usize, sub: Menu)
    requires
        path_ok(m, p),
        (i as int) < node_at(m, p).items@.len(),
        node_at(m, p).items@[i as int].payload == ItemPayload::Submenu(sub),
    ensures
        path_ok(m, p.push(i)),
        node_at(m, p.push(i)) == sub,
    decreases p.len(),
{
    if p.len() == 0 {
        assert(p.push(i)[0] == i);
        assert(p.push(i).drop_first() =~= Seq::<usize>::empty());
        assert(path_ok(sub, Seq::<usize>::empty()));
        assert(node_at(sub, Seq::<usize>::empty()) == sub);
        assert(path_ok(m, p.push(i)));
        assert(node_at(m, p.push(i)) == sub);
    } else {
        match m.items@[p[0] as int].payload {
            ItemPayload::Submenu(child) => {
                lemma_path_push(child, p.drop_first(), i, sub);
                assert(p.push(i)[0] == p[0]);
                assert(p.push(i).drop_first() =~= p.drop_first().push(i));
                assert(path_ok(m, p.push(i)));
                assert(node_at(m, p.push(i)) == sub);
            },
            ItemPayload::Action(_) => {},
        }
    }
}

/// A prefix of a valid path is a valid path.
pub proof fn lemma_path_drop_last(m: Menu, p: Seq<usize>)
    requires
        path_ok(m, p),
        p.len() > 0,
    ensures
        path_ok(m, p.drop_last()),
    decreases p.len(),
{
    if p.len() == 1 {
        assert(p.drop_last() =~= Seq::<usize>::empty());
    } else {
        match m.items@[p[0] as int].payload {
            ItemPayload::Submenu(child) => {
                lemma_path_drop_last(child, p.drop_first());
                assert(p.drop_last().drop_first() =~= p.drop_first().drop_last());
                assert(p.drop_last()[0] == p[0]);
            },
            ItemPayload::Action(_) => {},
        }
    }
}

/// Tracks the current position in a validated menu tree.
pub struct MenuManager {
    /// The root of the tree; never changes after construction.
    pub root: Menu,
    /// Item indices from the root to the current node; empty at the root.
    pub path: Vec<usize>,
}

impl MenuManager {
    /// The path points at existing submenu items all the way down.
    pub open spec fn wf(&self) -> bool {
        path_ok(self.root, self.path@)
    }

    /// The node the manager currently points at.
    pub open spec fn current(&self) -> Menu {
        node_at(self.root, self.path@)
    }

    /// Validate the tree and start at its root. Fails exactly on invalid
    /// trees, naming the first offending key in depth-first item order and its
    /// node's title.
    pub fn new(root_menu: Menu) -> (r: Result<MenuManager, IstariError>)
        ensures
            r matches Ok(mgr) ==> mgr.root == root_menu && mgr.path@.len() == 0 && mgr.wf(),
            r is Ok <==> menu_valid(root_menu),
            r matches Err(IstariError::ReservedCommand(k, t)) ==> reserved_witness(root_menu, k@, t@)
                && first_fault(root_menu) == Some((false, k@, t@)),
            r matches Err(IstariError::DuplicateCommand(k, t)) ==> duplicate_witness(
                root_menu,
                k@,
                t@,
            ) && first_fault(root_menu) == Some((true, k@, t@)),
    {
        match Menu::validate_menu(&root_menu) {
            Ok(_) => Ok(MenuManager { root: root_menu, path: Vec::new() }),
            Err(e) => Err(e),
        }
    }

    /// A reference to the node the manager currently points at.
    pub fn current_menu(&self) -> (r: &Menu)
        requires
            self.wf(),
        ensures
            *r == self.current(),
    {
        let mut cur: &Menu = &self.root;
        let n = self.path.len();
        proof {
            assert(self.path@.skip(0) =~= self.path@);
        }
        let mut i: usize = 0;
        while i < n
            invariant
                i <= n,
                n == self.path@.len(),
                path_ok(*cur, self.path@.skip(i as int)),
                node_at(*cur, self.path@.skip(i as int)) == node_at(self.root, self.path@),
            decreases n - i,
        {
            let idx = self.path[i];
            proof {
                assert(self.path@.skip(i as int)[0] == self.path@[i as int]);
                assert(self.path@.skip(i as int).drop_first() =~= self.path@.skip(i + 1 as int));
            }
            let prev = cur;
            cur = match &prev.items[idx].payload {
                ItemPayload::Submenu(sub) => sub,
                ItemPayload::Action(_) => {
                    proof {
                        assert(false);
                    }
                    prev
                },
            };
            i = i + 1;
        }
        proof {
            assert(self.path@.skip(n as int) =~= Seq::<usize>::empty());
        }
        cur
    }

    /// Enter the submenu named by `key` (case-insensitively). Returns true and
    /// moves down exactly when the first matching item of the current node is
    /// a submenu; otherwise nothing changes.
    pub fn navigate_to_submenu(&mut self, key: &str) -> (r: bool)
        requires
            old(self).wf(),
        ensures
            final(self).root == old(self).root,
            final(self).wf(),
            match find_item(old(self).current().items@, fold_case(key@)) {
                Some(i) => {
                    match old(self).current().items@[i].payload {
                        ItemPayload::Submenu(sub) => {
                            &&& r == true
                            &&& final(self).path@ == old(self).path@.push(i as usize)
                            &&& final(self).current() == sub
                        },
                        ItemPayload::Action(_) => r == false && *final(self) == *old(self),
                    }
                },
                None => r == false && *final(self) == *old(self),
            },
    {
        let kc = chars_of_str(key);
        let idx_opt = {
            let cur = self.current_menu();
            cur.find_index(&kc)
        };
        proof {
            lemma_find_item_props(old(self).current().items@, fold_case(key@));
        }
        match idx_opt {
            Some(i) => {
                let entered = {
                    let cur = self.current_menu();
                    match &cur.items[i].payload {
                        ItemPayload::Submenu(_) => {
                            proof {
                                let sub = self.current().items@[i as int].payload->Submenu_0;
                                lemma_path_push(self.root, self.path@, i, sub);
                            }
                            true
                        },
                        ItemPayload::Action(_) => false,
                    }
                };
                if entered {
                    self.path.push(i);
                    true
                } else {
                    false
                }
            },
            None => false,
        }
    }

    /// Move back to the parent node; false when already at the root.
    pub fn navigate_back(&mut self) -> (r: bool)
        requires
            old(self).wf(),
        ensures
            final(self).root == old(self).root,
            final(self).wf(),
            old(self).path@.len() > 0 ==> r == true && final(self).path@ == old(
                self,
            ).path@.drop_last(),
            old(self).path@.len() == 0 ==> r == false && *final(self) == *old(self),
    {
        if self.path.len() > 0 {
            proof {
                lemma_path_drop_last(self.root, self.path@);
            }
            self.path.pop();
            true
        } else {
            false
        }
    }

    /// Whether the current node is the root.
    pub fn is_at_root(&self) -> (r: bool)
        ensures
            r == (self.path@.len() == 0),
    {
        self.path.len() == 0
    }

    /// Whether the first item matching `key` in the current node is an action.
    pub fn has_action(&self, key: &str) -> (r: bool)
        requires
            self.wf(),
        ensures
            r == (find_item(self.current().items@, fold_case(key@)) matches Some(i)
                && self.current().items@[i].payload matches ItemPayload::Action(_)),
    {
        proof {
            lemma_find_item_props(self.current().items@, fold_case(key@));
        }
        let kc = chars_of_str(key);
        let cur = self.current_menu();
        match cur.find_index(&kc) {
            Some(i) => match &cur.items[i].payload {
                ItemPayload::Action(_) => true,
                ItemPayload::Submenu(_) => false,
            },
            None => false,
        }
    }

    /// Whether the first item matching `key` in the current node is a submenu.
    pub fn has_submenu(&self, key: &str) -> (r: bool)
        requires
            self.wf(),
        ensures
            r == (find_item(self.current().items@, fold_case(key@)) matches Some(i)
                && self.current().items@[i].payload matches ItemPayload::Submenu(_)),
    {
        proof {
            lemma_find_item_props(self.current().items@, fold_case(key@));
        }
        let kc = chars_of_str(key);
        let cur = self.current_menu();
        match cur.find_index(&kc) {
            Some(i) => match &cur.items[i].payload {
                ItemPayload::Action(_) => false,
                ItemPayload::Submenu(_) => true,
            },
            None => false,
        }
    }

    /// Run the action named by `key` through the host's runner and hand back
    /// its message. When the first matching item is not an action, nothing is
    /// run, nothing is returned, and the host state is untouched; the menu
    /// position never changes.
    pub fn execute_action<T, D: ActionRunner<T>>(
        &mut self,
        key: &str,
        state: &mut T,
        params: Option<&str>,
        runner: &mut D,
    ) -> (r: Option<String>)
        requires
            old(self).wf(),
        ensures
            *final(self) == *old(self),
            !(find_item(old(self).current().items@, fold_case(key@)) matches Some(i) && old(
                self,
            ).current().items@[i].payload matches ItemPayload::Action(_)) ==> r is None
                && *final(state) == *old(state),
    {
        proof {
            lemma_find_item_props(old(self).current().items@, fold_case(key@));
        }
        let kc = chars_of_str(key);
        let act_opt: Option<ActionType> = {
            let cur = self.current_menu();
            match cur.find_index(&kc) {
                Some(i) => match &cur.items[i].payload {
                    ItemPayload::Action(a) => Some(*a),
                    ItemPayload::Submenu(_) => None,
                },
                None => None,
            }
        };
        match act_opt {
            Some(act) => runner.run_action(&act, state, params),
            None => None,
        }
    }
}

/// Law: entering a submenu and then going back returns the current position to
/// the exact originating node, at any nesting depth; and the manager is at the
/// root exactly when the path has depth zero.
pub proof fn lemma_enter_then_back(m0: MenuManager, m1: MenuManager, m2: MenuManager)
    requires
        m0.wf(),
        m1.root == m0.root,
        m1.path@ == m0.path@.push(m1.path@.last()),
        m2.root == m1.root,
        m2.path@ == m1.path@.drop_last(),
    ensures
        m2.path@ == m0.path@,
        m2.current() == m0.current(),
        m2.wf(),
        m1.path@.len() > 0,
{
    assert(m1.path@.drop_last() =~= m0.path@);
}

} // verus!
