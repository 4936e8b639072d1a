//! The navigation state machine of the hotkey menu: a tree of submenus,
//! commands and environment values, a cursor, and a breadcrumb trail.
//! The level on show is derived from the root items and the breadcrumb,
//! so every navigation step is pinned to the tree; a back entry is
//! presented (virtually, at position zero) whenever a submenu is open.

use vstd::prelude::*;

verus! {

/// One entry of a menu level.
#[derive(Debug)]
pub enum MenuItem {
    Command { name: String, task: String },
    Submenu { name: String, items: Vec<MenuItem> },
    EnvVar { key: String, value: String },
    Back,
}

/// The label an entry shows.
pub open spec fn spec_label(i: MenuItem) -> Seq<char> {
    match i {
        MenuItem::Command { name, .. } => name@,
        MenuItem::Submenu { name, .. } => name@,
        MenuItem::EnvVar { key, .. } => key@,
        MenuItem::Back => "< back"@,
    }
}

impl MenuItem {
    /// The label an entry shows.
    pub fn display_name(&self) -> (r: &str)
        ensures
            r@ == spec_label(*self),
    {
        match self {
            MenuItem::Command { name, .. } => name.as_str(),
            MenuItem::Submenu { name, .. } => name.as_str(),
            MenuItem::EnvVar { key, .. } => key.as_str(),
            MenuItem::Back => "< back",
        }
    }
}

/// What selecting the current entry asks the caller to do.
#[derive(Debug)]
pub enum MenuAction {
    /// Run the named task (and offer the rendered command as fallback).
    RunTask { task: String },
    /// Hand the value out (for injection or the clipboard).
    UseValue { value: String },
    /// Nothing: navigation only, or an empty menu.
    Navigated,
}

/// The children of the first submenu of the level carrying the name,
/// if any does.
pub open spec fn spec_find_level(items: Seq<MenuItem>, crumb: Seq<char>) -> Option<Seq<MenuItem>>
    decreases items.len(),
{
    if items.len() == 0 {
        None
    } else if items[0] is Submenu && items[0]->Submenu_name@ == crumb {
        Some(items[0]->Submenu_items@)
    } else {
        spec_find_level(items.drop_first(), crumb)
    }
}

/// The level a crumb selects: the children of the first submenu carrying
/// the crumb's name, or the current level when no submenu carries it.
pub open spec fn spec_enter(items: Seq<MenuItem>, crumb: Seq<char>) -> Seq<MenuItem> {
    match spec_find_level(items, crumb) {
        Some(children) => children,
        None => items,
    }
}

/// The level a breadcrumb trail (without its root crumb) leads to.
pub open spec fn spec_level(root: Seq<MenuItem>, crumbs: Seq<Seq<char>>) -> Seq<MenuItem>
    decreases crumbs.len(),
{
    if crumbs.len() == 0 {
        root
    } else {
        spec_level(spec_enter(root, crumbs[0]), crumbs.drop_first())
    }
}

/// Build the root menu from the environment pairs and task names the
/// caller loaded: an environment submenu when any pair exists, a tasks
/// submenu when any task exists, then the four quick-access commands.
pub fn build_root_menu(env_pairs: Vec<(String, String)>, task_names: Vec<String>) -> (r: Vec<
    MenuItem,
>)
    ensures
        r@.len() == (if env_pairs@.len() > 0 {
            1int
        } else {
            0
        }) + (if task_names@.len() > 0 {
            1int
        } else {
            0
        }) + 4,
        env_pairs@.len() > 0 ==> (r@[0] matches MenuItem::Submenu { name, items } && name@
            == "env"@ && items@.len() == env_pairs@.len() && (forall|j: int|
            0 <= j < env_pairs@.len() ==> (#[trigger] items@[j] matches MenuItem::EnvVar {
                key,
                value,
            } && key@ == env_pairs@[j].0@ && value@ == env_pairs@[j].1@))),
        task_names@.len() > 0 ==> {
            let at = if env_pairs@.len() > 0 {
                1int
            } else {
                0
            };
            r@[at] matches MenuItem::Submenu { name, items } && name@ == "tasks"@ && items@.len()
                == task_names@.len() && (forall|j: int|
                0 <= j < task_names@.len() ==> (#[trigger] items@[j] matches MenuItem::Command {
                    name,
                    task,
                } && name@ == task_names@[j]@ && task@ == task_names@[j]@))
        },
        r@[r@.len() - 4] matches MenuItem::Command { name, task } && name@ == "fmt"@ && task@
            == "fmt"@,
        r@[r@.len() - 3] matches MenuItem::Command { name, task } && name@ == "lint"@ && task@
            == "lint"@,
        r@[r@.len() - 2] matches MenuItem::Command { name, task } && name@ == "test"@ && task@
            == "test"@,
        r@[r@.len() - 1] matches MenuItem::Command { name, task } && name@ == "check"@ && task@
            == "check"@,
{
    let mut items: Vec<MenuItem> = Vec::new();
    if env_pairs.len() > 0 {
        let mut env_items: Vec<MenuItem> = Vec::new();
        let mut i: usize = 0;
        while i < env_pairs.len()
            invariant
                i <= env_pairs@.len(),
                env_items@.len() == i,
                forall|j: int|
                    0 <= j < i ==> (#[trigger] env_items@[j] matches MenuItem::EnvVar {
                        key,
                        value,
                    } && key@ == env_pairs@[j].0@ && value@ == env_pairs@[j].1@),
            decreases env_pairs@.len() - i,
        {
            let (key, value) = (env_pairs[i].0.clone(), env_pairs[i].1.clone());
            env_items.push(MenuItem::EnvVar { key, value });
            i = i + 1;
        }
        items.push(MenuItem::Submenu { name: "env".to_owned(), items: env_items });
    }
    if task_names.len() > 0 {
        let mut task_items: Vec<MenuItem> = Vec::new();
        let mut i: usize = 0;
        while i < task_names.len()
            invariant
                i <= task_names@.len(),
                task_items@.len() == i,
                forall|j: int|
                    0 <= j < i ==> (#[trigger] task_items@[j] matches MenuItem::Command {
                        name,
                        task,
                    } && name@ == task_names@[j]@ && task@ == task_names@[j]@),
            decreases task_names@.len() - i,
        {
            let name = task_names[i].clone();
            let task = task_names[i].clone();
            task_items.push(MenuItem::Command { name, task });
            i = i + 1;
        }
        items.push(MenuItem::Submenu { name: "tasks".to_owned(), items: task_items });
    }
    items.push(MenuItem::Command { name: "fmt".to_owned(), task: "fmt".to_owned() });
    items.push(MenuItem::Command { name: "lint".to_owned(), task: "lint".to_owned() });
    items.push(MenuItem::Command { name: "test".to_owned(), task: "test".to_owned() });
    items.push(MenuItem::Command { name: "check".to_owned(), task: "check".to_owned() });
    items
}

/// The menu's navigation state: the root tree, the breadcrumb trail, and
/// the cursor into the level the breadcrumb names.
pub struct MenuState {
    /// The root level; the level on show is derived from it.
    pub root_items: Vec<MenuItem>,
    /// The trail of submenu names entered, below the fixed root title.
    pub breadcrumb: Vec<String>,
    /// The cursor into the shown entries (the virtual back entry first
    /// when a submenu is open).
    pub selected: usize,
}

impl MenuState {
    /// The crumbs below the root title.
    pub open spec fn spec_crumbs(&self) -> Seq<Seq<char>> {
        self.breadcrumb.deep_view().drop_first()
    }

    /// The items of the level the breadcrumb names.
    pub open spec fn spec_shown(&self) -> Seq<MenuItem> {
        spec_level(self.root_items@, self.spec_crumbs())
    }

    /// Whether a back entry is presented before the level's items.
    pub open spec fn spec_has_back(&self) -> bool {
        self.breadcrumb@.len() > 1
    }

    /// How many entries are presented.
    pub open spec fn spec_display_len(&self) -> int {
        self.spec_shown().len() + (if self.spec_has_back() {
            1int
        } else {
            0
        })
    }

    /// The breadcrumb starts at the root title and the cursor stays
    /// within the presented entries.
    pub open spec fn wf(&self) -> bool {
        &&& self.breadcrumb@.len() >= 1
        &&& self.breadcrumb.deep_view()[0] == "devkey"@
        &&& (self.selected == 0 || self.selected < self.spec_display_len())
    }

    /// A fresh menu showing the given root items.
    pub fn new(root_items: Vec<MenuItem>) -> (r: MenuState)
        ensures
            r.wf(),
            r.root_items@ == root_items@,
            r.selected == 0,
            !r.spec_has_back(),
            r.spec_shown() == root_items@,
            r.breadcrumb.deep_view() =~= seq!["devkey"@],
    {
        let mut breadcrumb: Vec<String> = Vec::new();
        breadcrumb.push("devkey".to_owned());
        let r = MenuState { root_items, breadcrumb, selected: 0 };
        proof {
            assert(r.breadcrumb.deep_view() =~= seq!["devkey"@]);
            assert(r.spec_crumbs() =~= Seq::<Seq<char>>::empty());
        }
        r
    }

    /// Whether a back entry is presented.
    pub fn has_back(&self) -> (r: bool)
        ensures
            r == self.spec_has_back(),
    {
        self.breadcrumb.len() > 1
    }

    /// The items of the level the breadcrumb names.
    #[verifier::loop_isolation(false)]
    pub fn current_level(&self) -> (r: &Vec<MenuItem>)
        requires
            self.wf(),
        ensures
            r@ == self.spec_shown(),
    {
        let ghost crumbs = self.spec_crumbs();
        let mut level: &Vec<MenuItem> = &self.root_items;
        let mut c: usize = 1;
        proof {
            assert(crumbs.skip(0) =~= crumbs);
        }
        while c < self.breadcrumb.len()
            invariant
                1 <= c <= self.breadcrumb@.len(),
                crumbs.len() == self.breadcrumb@.len() - 1,
                self.spec_shown() == spec_level(level@, crumbs.skip(c - 1)),
            decreases self.breadcrumb@.len() - c,
        {
            proof {
                assert(crumbs.skip(c - 1)[0] == crumbs[c - 1]);
                assert(crumbs.skip(c - 1).drop_first() =~= crumbs.skip(c as int));
                assert(crumbs[c - 1] == self.breadcrumb@[c as int]@);
            }
            level = find_submenu(level, self.breadcrumb[c].as_str());
            c = c + 1;
        }
        proof {
            assert(crumbs.skip(crumbs.len() as int) =~= Seq::<Seq<char>>::empty());
        }
        level
    }

    /// How many entries are presented.
    pub fn display_len(&self) -> (r: usize)
        requires
            self.wf(),
            self.spec_display_len() <= usize::MAX,
        ensures
            r == self.spec_display_len(),
    {
        let base = self.current_level().len();
        if self.has_back() {
            base + 1
        } else {
            base
        }
    }

    /// Move the cursor one entry up, stopping at the top.
    pub fn move_up(&mut self)
        requires
            old(self).wf(),
        ensures
            final(self).wf(),
            final(self).root_items@ == old(self).root_items@,
            final(self).breadcrumb.deep_view() == old(self).breadcrumb.deep_view(),
            final(self).selected == (if old(self).selected > 0 {
                old(self).selected - 1
            } else {
                0int
            }),
    {
        if self.selected > 0 {
            self.selected = self.selected - 1;
        }
    }

    /// Move the cursor one entry down, stopping at the last entry.
    pub fn move_down(&mut self)
        requires
            old(self).wf(),
            old(self).spec_display_len() <= usize::MAX,
        ensures
            final(self).wf(),
            final(self).root_items@ == old(self).root_items@,
            final(self).breadcrumb.deep_view() == old(self).breadcrumb.deep_view(),
            final(self).selected == (if old(self).selected + 1 < old(self).spec_display_len() {
                old(self).selected + 1
            } else {
                old(self).selected as int
            }),
    {
        let len = self.display_len();
        if len > 0 && self.selected < len - 1 {
            self.selected = self.selected + 1;
        }
    }

    /// Leave the current submenu; at the root nothing changes. Returns
    /// whether a level was left. The level on show afterwards is the one
    /// the shortened breadcrumb names, starting at its top entry.
    pub fn go_back(&mut self) -> (r: bool)
        requires
            old(self).wf(),
        ensures
            final(self).wf(),
            final(self).root_items@ == old(self).root_items@,
            r == old(self).spec_has_back(),
            r ==> final(self).breadcrumb.deep_view() == old(self).breadcrumb.deep_view().drop_last()
                && final(self).selected == 0,
            !r ==> final(self).breadcrumb.deep_view() == old(self).breadcrumb.deep_view()
                && final(self).selected == old(self).selected,
            final(self).spec_shown() == spec_level(
                old(self).root_items@,
                final(self).spec_crumbs(),
            ),
    {
        if self.breadcrumb.len() > 1 {
            self.breadcrumb.pop();
            self.selected = 0;
            proof {
                assert(self.breadcrumb.deep_view() =~= old(self).breadcrumb.deep_view().drop_last());
            }
            true
        } else {
            false
        }
    }

    /// Select the current entry: the virtual back entry leaves the
    /// submenu, a submenu entry opens it, a command or value entry asks
    /// the caller to act. On an empty level nothing happens.
    pub fn select(&mut self) -> (r: MenuAction)
        requires
            old(self).wf(),
            old(self).spec_display_len() <= usize::MAX,
        ensures
            final(self).wf(),
            final(self).root_items@ == old(self).root_items@,
            old(self).spec_display_len() == 0 ==> ((r is Navigated)
                && final(self).breadcrumb.deep_view() == old(self).breadcrumb.deep_view() && final(self).selected == old(self).selected),
            old(self).spec_has_back() && old(self).selected == 0 ==> ((r is Navigated) && final(self).breadcrumb.deep_view() == old(self).breadcrumb.deep_view().drop_last() && final(self).selected == 0),
            (!(old(self).spec_has_back() && old(self).selected == 0) && old(self).spec_display_len() > 0) ==> {
                let picked = old(self).spec_shown()[old(self).selected - (if old(self).spec_has_back() {
                    1int
                } else {
                    0
                })];
                match picked {
                    MenuItem::Command { task, .. } => (r matches MenuAction::RunTask {
                        task: chosen,
                    } && chosen@ == task@) && final(self).breadcrumb.deep_view() == old(self).breadcrumb.deep_view(),
                    MenuItem::EnvVar { value, .. } => (r matches MenuAction::UseValue {
                        value: chosen,
                    } && chosen@ == value@) && final(self).breadcrumb.deep_view() == old(self).breadcrumb.deep_view(),
                    MenuItem::Submenu { name, .. } => (r is Navigated) && final(self).breadcrumb.deep_view() == old(self).breadcrumb.deep_view().push(name@)
                        && final(self).selected == 0,
                    MenuItem::Back => r is Navigated,
                }
            },
    {
        let offset: usize = if self.has_back() {
            1
        } else {
            0
        };
        let level_len = self.current_level().len();
        if offset == 0 && level_len == 0 {
            return MenuAction::Navigated;
        }
        if offset == 1 && self.selected == 0 {
            self.go_back();
            return MenuAction::Navigated;
        }
        let idx = if self.selected >= offset && self.selected - offset < level_len {
            self.selected - offset
        } else {
            0
        };
        proof {
            assert(idx == old(self).selected - (if old(self).spec_has_back() {
                1int
            } else {
                0
            }));
        }
        let action = match &self.current_level()[idx] {
            MenuItem::Command { task, .. } => MenuAction::RunTask { task: task.clone() },
            MenuItem::EnvVar { value, .. } => MenuAction::UseValue { value: value.clone() },
            MenuItem::Submenu { name, .. } => {
                let name = name.clone();
                MenuAction::RunTask { task: name }
            },
            MenuItem::Back => MenuAction::Navigated,
        };
        match action {
            MenuAction::RunTask { task } => {
                let is_submenu = match &self.current_level()[idx] {
                    MenuItem::Submenu { .. } => true,
                    _ => false,
                };
                if is_submenu {
                    self.breadcrumb.push(task);
                    self.selected = 0;
                    proof {
                        assert(self.breadcrumb.deep_view() =~= old(self).breadcrumb.deep_view().push(
                            old(self).spec_shown()[idx as int]->Submenu_name@,
                        ));
                    }
                    MenuAction::Navigated
                } else {
                    MenuAction::RunTask { task }
                }
            },
            other => other,
        }
    }

    /// The window title: the breadcrumb joined with arrows.
    pub fn current_title(&self) -> (r: String)
        ensures
            r@ == crate::text::spec_join(self.breadcrumb.deep_view(), " > "@),
    {
        crate::text::join(&self.breadcrumb, " > ")
    }
}

/// The children of the first submenu carrying the name, or the level
/// itself when none does.
#[verifier::loop_isolation(false)]
fn find_submenu<'a>(level: &'a Vec<MenuItem>, name: &str) -> (r: &'a Vec<MenuItem>)
    ensures
        r@ == spec_enter(level@, name@),
{
    let ghost items = level@;
    let mut i: usize = 0;
    proof {
        assert(items.skip(0) =~= items);
    }
    while i < level.len()
        invariant
            i <= items.len(),
            items == level@,
            spec_find_level(items, name@) == spec_find_level(items.skip(i as int), name@),
        decreases items.len() - i,
    {
        proof {
            assert(items.skip(i as int)[0] == items[i as int]);
            assert(items.skip(i as int).drop_first() =~= items.skip(i + 1));
        }
        match &level[i] {
            MenuItem::Submenu { name: sub_name, items: children } => {
                if crate::text::str_eq(sub_name.as_str(), name) {
                    proof {
                        assert(spec_find_level(items.skip(i as int), name@) == Some(children@));
                    }
                    return children;
                }
            },
            _ => {},
        }
        i = i + 1;
    }
    proof {
        assert(items.skip(items.len() as int) =~= Seq::<MenuItem>::empty());
    }
    level
}

} // verus!
