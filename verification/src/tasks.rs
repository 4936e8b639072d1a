//! Named task definitions and their flattening into a linear command list.
//!
//! A task is an ordered list of steps; a step is either a literal command
//! (an argv vector) or a reference to another task. Flattening expands the
//! references depth-first in declaration order, inherits the `allow_fail`
//! policy along the reference chain, and fails fast on unknown names,
//! empty commands and reference cycles.

use vstd::prelude::*;

verus! {

/// One concrete command produced by flattening: the task that directly
/// held it, its argv, and the resolved failure policy.
#[derive(Clone, Debug)]
pub struct CommandSpec {
    pub origin: String,
    pub argv: Vec<String>,
    pub allow_fail: bool,
}

/// One step of a task definition.
#[derive(Clone, Debug)]
pub enum TaskStep {
    Command(Vec<String>),
    TaskRef(String),
}

/// A named task definition.
#[derive(Clone, Debug)]
pub struct Task {
    pub name: String,
    pub steps: Vec<TaskStep>,
    pub allow_fail: bool,
}

/// Why flattening failed.
#[derive(Clone, Debug)]
pub enum TaskError {
    /// A referenced task is not defined.
    UnknownTask { name: String },
    /// A task re-entered itself; the path holds the reference chain from
    /// the first occurrence of the re-entered name back to itself, so it
    /// starts and ends with that name.
    CycleDetected { path: Vec<String> },
    /// A task holds a command with an empty argv.
    EmptyCommand { task: String },
}

/// Mathematical image of a [`CommandSpec`].
pub struct CommandModel {
    pub origin: Seq<char>,
    pub argv: Seq<Seq<char>>,
    pub allow_fail: bool,
}

/// Mathematical image of a [`TaskStep`].
pub enum StepModel {
    Command(Seq<Seq<char>>),
    TaskRef(Seq<char>),
}

/// Mathematical image of a [`Task`].
pub struct TaskModel {
    pub name: Seq<char>,
    pub steps: Seq<StepModel>,
    pub allow_fail: bool,
}

/// Mathematical image of a [`TaskError`].
pub enum ErrorModel {
    UnknownTask(Seq<char>),
    CycleDetected(Seq<Seq<char>>),
    EmptyCommand(Seq<char>),
}

impl View for CommandSpec {
    type V = CommandModel;

    open spec fn view(&self) -> CommandModel {
        CommandModel { origin: self.origin@, argv: self.argv.deep_view(), allow_fail: self.allow_fail }
    }
}

impl DeepView for CommandSpec {
    type V = CommandModel;

    open spec fn deep_view(&self) -> CommandModel {
        self@
    }
}

impl View for TaskStep {
    type V = StepModel;

    open spec fn view(&self) -> StepModel {
        match self {
            TaskStep::Command(argv) => StepModel::Command(argv.deep_view()),
            TaskStep::TaskRef(name) => StepModel::TaskRef(name@),
        }
    }
}

impl DeepView for TaskStep {
    type V = StepModel;

    open spec fn deep_view(&self) -> StepModel {
        self@
    }
}

impl View for Task {
    type V = TaskModel;

    open spec fn view(&self) -> TaskModel {
        TaskModel { name: self.name@, steps: self.steps.deep_view(), allow_fail: self.allow_fail }
    }
}

impl DeepView for Task {
    type V = TaskModel;

    open spec fn deep_view(&self) -> TaskModel {
        self@
    }
}

impl View for TaskError {
    type V = ErrorModel;

    open spec fn view(&self) -> ErrorModel {
        match self {
            TaskError::UnknownTask { name } => ErrorModel::UnknownTask(name@),
            TaskError::CycleDetected { path } => ErrorModel::CycleDetected(path.deep_view()),
            TaskError::EmptyCommand { task } => ErrorModel::EmptyCommand(task@),
        }
    }
}

/// The store of task definitions, keyed by task name.
pub struct TaskIndex {
    tasks: Vec<Task>,
}

impl View for TaskIndex {
    type V = Seq<TaskModel>;

    closed spec fn view(&self) -> Seq<TaskModel> {
        self.tasks.deep_view()
    }
}

/// Lookup of a task by name: the first definition with that name.
pub open spec fn spec_find(tasks: Seq<TaskModel>, name: Seq<char>) -> Option<TaskModel>
    decreases tasks.len(),
{
    if tasks.len() == 0 {
        None
    } else if tasks[0].name == name {
        Some(tasks[0])
    } else {
        spec_find(tasks.drop_first(), name)
    }
}

/// Names stored in the index, in storage order.
pub open spec fn spec_names(tasks: Seq<TaskModel>) -> Seq<Seq<char>> {
    tasks.map_values(|t: TaskModel| t.name)
}

/// No two definitions share a name.
pub open spec fn unique_names(tasks: Seq<TaskModel>) -> bool {
    forall|i: int, j: int| 0 <= i < j < tasks.len() ==> tasks[i].name != tasks[j].name
}

proof fn lemma_find_from(tasks: Seq<TaskModel>, name: Seq<char>, k: int)
    requires
        0 <= k <= tasks.len(),
        forall|j: int| 0 <= j < k ==> tasks[j].name != name,
    ensures
        spec_find(tasks, name) == spec_find(tasks.skip(k), name),
    decreases k,
{
    if k > 0 {
        assert(tasks.drop_first().skip(k - 1) =~= tasks.skip(k));
        lemma_find_from(tasks.drop_first(), name, k - 1);
    } else {
        assert(tasks.skip(0) =~= tasks);
    }
}

impl TaskIndex {
    /// An index with no definitions.
    pub fn new() -> (r: TaskIndex)
        ensures
            r@ =~= Seq::<TaskModel>::empty(),
            unique_names(r@),
    {
        TaskIndex { tasks: Vec::new() }
    }

    /// True when no task is defined.
    pub fn is_empty(&self) -> (r: bool)
        ensures
            r == (self@.len() == 0),
    {
        self.tasks.len() == 0
    }

    /// How many tasks are defined.
    pub fn len(&self) -> (r: usize)
        ensures
            r == self@.len(),
    {
        self.tasks.len()
    }

    /// The defined task names, in storage order.
    pub fn task_names(&self) -> (r: Vec<String>)
        ensures
            r.deep_view() =~= spec_names(self@),
    {
        let mut names: Vec<String> = Vec::new();
        let mut i: usize = 0;
        while i < self.tasks.len()
            invariant
                i <= self.tasks.len(),
                names@.len() == i,
                forall|j: int| 0 <= j < i ==> names@[j]@ == self@[j].name,
            decreases self.tasks.len() - i,
        {
            let name = self.tasks[i].name.clone();
            proof {
                assert(self@[i as int] == self.tasks@[i as int]@);
            }
            names.push(name);
            i = i + 1;
        }
        names
    }

    /// Look a task up by name.
    pub fn get(&self, name: &str) -> (r: Option<&Task>)
        ensures
            match r {
                Some(t) => spec_find(self@, name@) == Some(t@),
                None => spec_find(self@, name@) is None,
            },
    {
        let mut i: usize = 0;
        while i < self.tasks.len()
            invariant
                i <= self.tasks.len(),
                forall|j: int| 0 <= j < i ==> self@[j].name != name@,
            decreases self.tasks.len() - i,
        {
            proof {
                assert(self@[i as int] == self.tasks@[i as int]@);
            }
            if crate::text::str_eq(self.tasks[i].name.as_str(), name) {
                proof {
                    lemma_find_from(self@, name@, i as int);
                    assert(self@.skip(i as int)[0] == self@[i as int]);
                }
                return Some(&self.tasks[i]);
            }
            i = i + 1;
        }
        proof {
            lemma_find_from(self@, name@, self@.len() as int);
            assert(self@.skip(self@.len() as int) =~= Seq::<TaskModel>::empty());
        }
        None
    }

    /// The definition stored by [`TaskIndex::insert`] for a given name and task.
    pub open spec fn stored_model(name: Seq<char>, task: TaskModel) -> TaskModel {
        TaskModel { name: name, steps: task.steps, allow_fail: task.allow_fail }
    }

    /// Add a definition, replacing any earlier one with the same name.
    #[verifier::loop_isolation(false)]
    pub fn insert(&mut self, name: String, task: Task)
        requires
            unique_names(old(self)@),
        ensures
            final(self)@ =~= (if exists|i: int|
                0 <= i < old(self)@.len() && old(self)@[i].name == name@ {
                old(self)@.update(
                    choose|i: int| 0 <= i < old(self)@.len() && old(self)@[i].name == name@,
                    Self::stored_model(name@, task@),
                )
            } else {
                old(self)@.push(Self::stored_model(name@, task@))
            }),
            unique_names(final(self)@),
    {
        let ghost gname = name@;
        let ghost gtask = task@;
        let stored = Task { name, steps: task.steps, allow_fail: task.allow_fail };
        let mut i: usize = 0;
        while i < self.tasks.len()
            invariant
                i <= self.tasks.len(),
                self@ == old(self)@,
                unique_names(old(self)@),
                forall|j: int| 0 <= j < i ==> self@[j].name != gname,
                stored@ == Self::stored_model(gname, gtask),
            decreases self.tasks.len() - i,
        {
            proof {
                assert(self@[i as int] == self.tasks@[i as int]@);
            }
            if crate::text::str_eq(self.tasks[i].name.as_str(), stored.name.as_str()) {
                proof {
                    let w = choose|k: int|
                        0 <= k < old(self)@.len() && old(self)@[k].name == gname;
                    assert(old(self)@[i as int].name == gname);
                    assert(w == i as int);
                }
                let ghost oldv = old(self)@;
                let ghost smodel = stored@;
                self.tasks.set(i, stored);
                proof {
                    assert forall|j: int| 0 <= j < self@.len() implies self@[j] == oldv.update(
                        i as int,
                        smodel,
                    )[j] by {
                        assert(self@[j] == self.tasks@[j]@);
                        if j != i {
                            assert(oldv[j] == old(self).tasks@[j]@);
                        }
                    }
                    assert(self@ =~= oldv.update(i as int, smodel));
                    assert forall|a: int, b: int|
                        0 <= a < b < self@.len() implies self@[a].name != self@[b].name by {
                        assert(self@[a].name == oldv[a].name);
                        assert(self@[b].name == oldv[b].name);
                    }
                }
                return ;
            }
            i = i + 1;
        }
        self.tasks.push(stored);
    }
}


/// Defined task names that are not on the expansion stack.
pub open spec fn fresh_names(tasks: Seq<TaskModel>, stack: Seq<Seq<char>>) -> Set<Seq<char>> {
    spec_names(tasks).to_set().difference(stack.to_set())
}

/// Termination measure of the expansion: how many defined names the
/// stack has not reached yet.
pub open spec fn rem_names(tasks: Seq<TaskModel>, stack: Seq<Seq<char>>) -> nat {
    fresh_names(tasks, stack).len()
}

proof fn lemma_found_name_is_defined(tasks: Seq<TaskModel>, name: Seq<char>)
    requires
        spec_find(tasks, name) is Some,
    ensures
        spec_names(tasks).to_set().contains(name),
    decreases tasks.len(),
{
    if tasks.len() > 0 {
        if tasks[0].name == name {
            assert(spec_names(tasks)[0] == name);
            assert(spec_names(tasks).contains(name));
        } else {
            lemma_found_name_is_defined(tasks.drop_first(), name);
            assert(spec_names(tasks.drop_first()) =~= spec_names(tasks).drop_first());
            let i = choose|i: int|
                0 <= i < spec_names(tasks.drop_first()).len() && spec_names(tasks.drop_first())[i]
                    == name;
            assert(spec_names(tasks)[i + 1] == name);
            assert(spec_names(tasks).contains(name));
        }
    }
}

proof fn lemma_rem_names_decreases(tasks: Seq<TaskModel>, name: Seq<char>, stack: Seq<Seq<char>>)
    requires
        spec_find(tasks, name) is Some,
        !stack.contains(name),
    ensures
        rem_names(tasks, stack.push(name)) < rem_names(tasks, stack),
{
    broadcast use vstd::set::group_set_axioms, vstd::seq_lib::seq_to_set_is_finite;

    lemma_found_name_is_defined(tasks, name);
    let defined = spec_names(tasks).to_set();
    let before = defined.difference(stack.to_set());
    let after = defined.difference(stack.push(name).to_set());
    assert(stack.push(name).contains(name)) by {
        assert(stack.push(name)[stack.len() as int] == name);
    }
    assert forall|x: Seq<char>| stack.push(name).contains(x) implies stack.to_set().insert(
        name,
    ).contains(x) by {
        let i = choose|i: int| 0 <= i < stack.push(name).len() && stack.push(name)[i] == x;
        if i < stack.len() {
            assert(stack[i] == x);
        }
    }
    assert forall|x: Seq<char>| stack.to_set().insert(name).contains(x) implies stack.push(
        name,
    ).contains(x) by {
        if x == name {
            assert(stack.push(name)[stack.len() as int] == x);
        } else {
            let i = choose|i: int| 0 <= i < stack.len() && stack[i] == x;
            assert(stack.push(name)[i] == x);
        }
    }
    assert(stack.push(name).to_set() =~= stack.to_set().insert(name));
    assert(after =~= before.remove(name));
    assert(before.contains(name));
    assert(defined.finite());
    assert(before.finite());
    assert(before.remove(name).len() == before.len() - 1);
}

/// Position of the first occurrence of a name on the expansion stack.
pub open spec fn spec_first_index(stack: Seq<Seq<char>>, name: Seq<char>) -> int
    decreases stack.len(),
{
    if stack.len() == 0 {
        0
    } else if stack[0] == name {
        0
    } else {
        1 + spec_first_index(stack.drop_first(), name)
    }
}

pub proof fn lemma_first_index(stack: Seq<Seq<char>>, name: Seq<char>)
    requires
        stack.contains(name),
    ensures
        0 <= spec_first_index(stack, name) < stack.len(),
        stack[spec_first_index(stack, name)] == name,
        forall|j: int| 0 <= j < spec_first_index(stack, name) ==> stack[j] != name,
    decreases stack.len(),
{
    if stack[0] != name {
        assert(stack.drop_first().contains(name)) by {
            let w = choose|w: int| 0 <= w < stack.len() && stack[w] == name;
            assert(stack.drop_first()[w - 1] == name);
        }
        lemma_first_index(stack.drop_first(), name);
        let rest_idx = spec_first_index(stack.drop_first(), name);
        assert(stack[1 + rest_idx] == stack.drop_first()[rest_idx]);
        assert forall|j: int| 0 <= j < 1 + rest_idx implies stack[j] != name by {
            if j > 0 {
                assert(stack[j] == stack.drop_first()[j - 1]);
            }
        }
    }
}

/// The full functional model of flattening: expanding one named task.
///
/// The expansion stack lists the tasks currently being expanded, root
/// first. Re-entering a name on the stack is the cycle error; its path
/// is the chain from the first occurrence of the re-entered name on the
/// stack back to the name itself.
pub open spec fn spec_flatten_task(
    tasks: Seq<TaskModel>,
    name: Seq<char>,
    inherited: bool,
    stack: Seq<Seq<char>>,
) -> Result<Seq<CommandModel>, ErrorModel>
    decreases rem_names(tasks, stack), 0int, 0int,
    via spec_flatten_task_decreases
{
    if stack.contains(name) {
        Err(ErrorModel::CycleDetected(stack.skip(spec_first_index(stack, name)).push(name)))
    } else {
        match spec_find(tasks, name) {
            Option::None => Err(ErrorModel::UnknownTask(name)),
            Option::Some(t) => spec_flatten_steps(
                tasks,
                name,
                t.steps,
                inherited || t.allow_fail,
                stack.push(name),
            ),
        }
    }
}

/// The functional model of expanding the remaining steps of one task.
pub open spec fn spec_flatten_steps(
    tasks: Seq<TaskModel>,
    origin: Seq<char>,
    steps: Seq<StepModel>,
    allow_fail: bool,
    stack: Seq<Seq<char>>,
) -> Result<Seq<CommandModel>, ErrorModel>
    decreases rem_names(tasks, stack), 1int, steps.len(),
{
    if steps.len() == 0 {
        Ok(Seq::empty())
    } else {
        let head = match steps[0] {
            StepModel::Command(argv) => if argv.len() == 0 {
                Err(ErrorModel::EmptyCommand(origin))
            } else {
                Ok(seq![CommandModel { origin: origin, argv: argv, allow_fail: allow_fail }])
            },
            StepModel::TaskRef(n) => spec_flatten_task(tasks, n, allow_fail, stack),
        };
        match head {
            Err(e) => Err(e),
            Ok(first) => match spec_flatten_steps(
                tasks,
                origin,
                steps.drop_first(),
                allow_fail,
                stack,
            ) {
                Err(e) => Err(e),
                Ok(rest) => Ok(first + rest),
            },
        }
    }
}

#[via_fn]
proof fn spec_flatten_task_decreases(
    tasks: Seq<TaskModel>,
    name: Seq<char>,
    inherited: bool,
    stack: Seq<Seq<char>>,
) {
    if !stack.contains(name) && spec_find(tasks, name) is Some {
        lemma_rem_names_decreases(tasks, name, stack);
    }
}

/// How an executable flattening result corresponds to the model.
pub open spec fn flatten_matches(
    r: Result<Vec<CommandSpec>, TaskError>,
    m: Result<Seq<CommandModel>, ErrorModel>,
) -> bool {
    match r {
        Ok(v) => m == Ok::<Seq<CommandModel>, ErrorModel>(v.deep_view()),
        Err(e) => m == Err::<Seq<CommandModel>, ErrorModel>(e@),
    }
}

/// Prepend already-emitted commands to the model of the remaining steps.
pub open spec fn with_prefix(
    prefix: Seq<CommandModel>,
    rest: Result<Seq<CommandModel>, ErrorModel>,
) -> Result<Seq<CommandModel>, ErrorModel> {
    match rest {
        Ok(cs) => Ok(prefix + cs),
        Err(e) => Err(e),
    }
}

impl TaskIndex {
    /// Flatten a task into the linear command list its execution runs,
    /// in declaration order with nested references inlined in place.
    ///
    /// Fails with `UnknownTask` when `task` or a referenced name is not
    /// defined, with `EmptyCommand` when a reached command has an empty
    /// argv, and with `CycleDetected` when expansion re-enters a task,
    /// carrying the reference chain from the re-entered name's first
    /// occurrence back to itself. The result is a function of the
    /// definitions and the name alone: repeated calls return the same
    /// commands in the same order.
    pub fn flatten(&self, task: &str) -> (r: Result<Vec<CommandSpec>, TaskError>)
        ensures
            flatten_matches(r, spec_flatten_task(self@, task@, false, Seq::empty())),
    {
        let mut stack: Vec<String> = Vec::new();
        proof {
            assert(stack.deep_view() =~= Seq::<Seq<char>>::empty());
        }
        self.flatten_internal(task, false, &mut stack)
    }

    #[verifier::loop_isolation(false)]
    fn flatten_internal(&self, task: &str, inherited: bool, stack: &mut Vec<String>) -> (r: Result<
        Vec<CommandSpec>,
        TaskError,
    >)
        ensures
            flatten_matches(r, spec_flatten_task(self@, task@, inherited, old(stack).deep_view())),
            r is Ok ==> final(stack).deep_view() == old(stack).deep_view(),
        decreases rem_names(self@, stack.deep_view()), 0int, 0int,
    {
        let ghost tasks = self@;
        let ghost stack0 = stack.deep_view();
        if crate::text::vec_contains_str(stack, task) {
            proof {
                lemma_first_index(stack0, task@);
            }
            let mut idx: usize = 0;
            while idx < stack.len() && !crate::text::str_eq(stack[idx].as_str(), task)
                invariant
                    idx <= stack0.len(),
                    forall|j: int| 0 <= j < idx ==> stack0[j] != task@,
                decreases stack0.len() - idx,
            {
                proof {
                    assert(stack0[idx as int] == stack@[idx as int]@);
                }
                idx = idx + 1;
            }
            proof {
                if idx < stack0.len() {
                    assert(stack0[idx as int] == stack@[idx as int]@);
                }
                assert(idx == spec_first_index(stack0, task@));
            }
            let mut path: Vec<String> = Vec::new();
            let mut j: usize = idx;
            while j < stack.len()
                invariant
                    idx <= j <= stack0.len(),
                    path@.len() == j - idx,
                    forall|w: int| 0 <= w < path@.len() ==> path@[w]@ == stack0[idx + w],
                decreases stack0.len() - j,
            {
                proof {
                    assert(stack0[j as int] == stack@[j as int]@);
                }
                path.push(stack[j].clone());
                j = j + 1;
            }
            path.push(task.to_owned());
            proof {
                assert(path.deep_view() =~= stack0.skip(idx as int).push(task@));
            }
            return Err(TaskError::CycleDetected { path });
        }
        let definition = match self.get(task) {
            Some(t) => t,
            None => {
                return Err(TaskError::UnknownTask { name: task.to_owned() });
            },
        };
        let allow_fail = inherited || definition.allow_fail;
        stack.push(task.to_owned());
        let ghost stack1 = stack.deep_view();
        proof {
            assert(stack1 =~= stack0.push(task@));
            lemma_rem_names_decreases(tasks, task@, stack0);
        }
        let ghost steps = definition@.steps;
        let mut commands: Vec<CommandSpec> = Vec::new();
        proof {
            assert(steps.skip(0) =~= steps);
            assert(commands.deep_view() =~= Seq::<CommandModel>::empty());
            match spec_flatten_steps(tasks, task@, steps, allow_fail, stack1) {
                Ok(cs) => {
                    assert(Seq::<CommandModel>::empty() + cs =~= cs);
                },
                Err(_) => {},
            }
        }
        let mut i: usize = 0;
        while i < definition.steps.len()
            invariant
                i <= definition.steps.len(),
                steps.len() == definition.steps.len(),
                stack.deep_view() == stack1,
                spec_flatten_steps(tasks, task@, steps, allow_fail, stack1) == with_prefix(
                    commands.deep_view(),
                    spec_flatten_steps(tasks, task@, steps.skip(i as int), allow_fail, stack1),
                ),
            decreases definition.steps.len() - i,
        {
            proof {
                assert(steps.skip(i as int)[0] == steps[i as int]);
                assert(steps.skip(i as int).drop_first() =~= steps.skip(i + 1));
                assert(steps[i as int] == definition.steps@[i as int]@);
            }
            let ghost commands0 = commands.deep_view();
            match &definition.steps[i] {
                TaskStep::Command(argv) => {
                    if argv.len() == 0 {
                        return Err(TaskError::EmptyCommand { task: task.to_owned() });
                    }
                    let unit = CommandSpec {
                        origin: task.to_owned(),
                        argv: crate::text::clone_string_vec(argv),
                        allow_fail,
                    };
                    let ghost unit_model = unit@;
                    commands.push(unit);
                    proof {
                        assert(commands.deep_view() =~= commands0.push(unit_model));
                        assert(commands0.push(unit_model) =~= commands0 + seq![unit_model]);
                        match spec_flatten_steps(
                            tasks,
                            task@,
                            steps.skip(i + 1),
                            allow_fail,
                            stack1,
                        ) {
                            Ok(rest) => {
                                assert(commands0 + (seq![unit_model] + rest) =~= (commands0
                                    + seq![unit_model]) + rest);
                            },
                            Err(_) => {},
                        }
                    }
                },
                TaskStep::TaskRef(name) => {
                    let mut nested = match self.flatten_internal(name.as_str(), allow_fail, stack) {
                        Ok(v) => v,
                        Err(e) => {
                            return Err(e);
                        },
                    };
                    let ghost nested_model = nested.deep_view();
                    commands.append(&mut nested);
                    proof {
                        assert(commands.deep_view() =~= commands0 + nested_model);
                        match spec_flatten_steps(
                            tasks,
                            task@,
                            steps.skip(i + 1),
                            allow_fail,
                            stack1,
                        ) {
                            Ok(rest) => {
                                assert(commands0 + (nested_model + rest) =~= (commands0
                                    + nested_model) + rest);
                            },
                            Err(_) => {},
                        }
                    }
                },
            }
            i = i + 1;
        }
        proof {
            assert(steps.skip(steps.len() as int) =~= Seq::<StepModel>::empty());
            assert(commands.deep_view() + Seq::<CommandModel>::empty() =~= commands.deep_view());
        }
        let ghost before_pop = stack@;
        stack.pop();
        proof {
            assert forall|j: int| 0 <= j < stack.deep_view().len() implies stack.deep_view()[j]
                == stack0[j] by {
                assert(stack.deep_view()[j] == stack@[j]@);
                assert(stack@[j] == before_pop[j]);
                assert(stack1[j] == before_pop[j]@);
                assert(stack1[j] == stack0[j]);
            }
            assert(stack.deep_view() =~= stack0);
        }
        Ok(commands)
    }
}


/// Flattening is deterministic: equal definitions and an equal task name
/// give equal results, commands in the same order.
pub proof fn lemma_flatten_deterministic(
    tasks_a: Seq<TaskModel>,
    tasks_b: Seq<TaskModel>,
    name: Seq<char>,
)
    requires
        tasks_a == tasks_b,
    ensures
        spec_flatten_task(tasks_a, name, false, Seq::empty()) == spec_flatten_task(
            tasks_b,
            name,
            false,
            Seq::empty(),
        ),
{
}

/// Every command flattened under an inherited `allow_fail` carries it:
/// when a task with `allow_fail` set references another, the whole
/// expansion of the referenced task keeps the policy.
pub proof fn lemma_flatten_task_inherits_allow_fail(
    tasks: Seq<TaskModel>,
    name: Seq<char>,
    stack: Seq<Seq<char>>,
)
    ensures
        spec_flatten_task(tasks, name, true, stack) matches Ok(cs) ==> forall|k: int|
            0 <= k < cs.len() ==> cs[k].allow_fail,
    decreases rem_names(tasks, stack), 0int, 0int,
{
    if !stack.contains(name) {
        match spec_find(tasks, name) {
            Option::Some(t) => {
                lemma_rem_names_decreases(tasks, name, stack);
                lemma_flatten_steps_inherits_allow_fail(tasks, name, t.steps, stack.push(name));
            },
            Option::None => {},
        }
    }
}

proof fn lemma_flatten_steps_inherits_allow_fail(
    tasks: Seq<TaskModel>,
    origin: Seq<char>,
    steps: Seq<StepModel>,
    stack: Seq<Seq<char>>,
)
    ensures
        spec_flatten_steps(tasks, origin, steps, true, stack) matches Ok(cs) ==> forall|k: int|
            0 <= k < cs.len() ==> cs[k].allow_fail,
    decreases rem_names(tasks, stack), 1int, steps.len(),
{
    if steps.len() > 0 {
        match steps[0] {
            StepModel::Command(_) => {},
            StepModel::TaskRef(n) => {
                lemma_flatten_task_inherits_allow_fail(tasks, n, stack);
            },
        }
        lemma_flatten_steps_inherits_allow_fail(tasks, origin, steps.drop_first(), stack);
    }
}

proof fn lemma_cycle_path_task(
    tasks: Seq<TaskModel>,
    name: Seq<char>,
    inherited: bool,
    stack: Seq<Seq<char>>,
    p: Seq<Seq<char>>,
)
    requires
        spec_flatten_task(tasks, name, inherited, stack) == Err::<
            Seq<CommandModel>,
            ErrorModel,
        >(ErrorModel::CycleDetected(p)),
    ensures
        p.len() >= 2,
        p[0] == p[p.len() - 1],
    decreases rem_names(tasks, stack), 0int, 0int,
{
    if stack.contains(name) {
        lemma_first_index(stack, name);
        let idx = spec_first_index(stack, name);
        assert(p == stack.skip(idx).push(name));
        assert(p[0] == stack[idx]);
        assert(p[p.len() - 1] == name);
    } else {
        match spec_find(tasks, name) {
            Option::Some(t) => {
                lemma_rem_names_decreases(tasks, name, stack);
                lemma_cycle_path_steps(
                    tasks,
                    name,
                    t.steps,
                    inherited || t.allow_fail,
                    stack.push(name),
                    p,
                );
            },
            Option::None => {},
        }
    }
}

proof fn lemma_cycle_path_steps(
    tasks: Seq<TaskModel>,
    origin: Seq<char>,
    steps: Seq<StepModel>,
    allow_fail: bool,
    stack: Seq<Seq<char>>,
    p: Seq<Seq<char>>,
)
    requires
        spec_flatten_steps(tasks, origin, steps, allow_fail, stack) == Err::<
            Seq<CommandModel>,
            ErrorModel,
        >(ErrorModel::CycleDetected(p)),
    ensures
        p.len() >= 2,
        p[0] == p[p.len() - 1],
    decreases rem_names(tasks, stack), 1int, steps.len(),
{
    assert(steps.len() > 0);
    let head = match steps[0] {
        StepModel::Command(argv) => if argv.len() == 0 {
            Err::<Seq<CommandModel>, ErrorModel>(ErrorModel::EmptyCommand(origin))
        } else {
            Ok(seq![CommandModel { origin: origin, argv: steps[0]->Command_0, allow_fail: allow_fail }])
        },
        StepModel::TaskRef(n) => spec_flatten_task(tasks, n, allow_fail, stack),
    };
    match head {
        Err(e) => {
            assert(e == ErrorModel::CycleDetected(p));
            match steps[0] {
                StepModel::Command(_) => {
                    assert(false);
                },
                StepModel::TaskRef(n) => {
                    lemma_cycle_path_task(tasks, n, allow_fail, stack, p);
                },
            }
        },
        Ok(_) => {
            lemma_cycle_path_steps(tasks, origin, steps.drop_first(), allow_fail, stack, p);
        },
    }
}

/// A cycle error's path is the reference chain from the re-entered
/// name's first occurrence back to itself: it holds at least two names
/// and starts and ends with the repeated name.
pub proof fn lemma_cycle_path_shape(tasks: Seq<TaskModel>, name: Seq<char>, p: Seq<Seq<char>>)
    requires
        spec_flatten_task(tasks, name, false, Seq::empty()) == Err::<
            Seq<CommandModel>,
            ErrorModel,
        >(ErrorModel::CycleDetected(p)),
    ensures
        p.len() >= 2,
        p[0] == p[p.len() - 1],
{
    lemma_cycle_path_task(tasks, name, false, Seq::empty(), p);
}


/// A root task marked `allow_fail` marks every command of its whole
/// expansion, its own and those of every task it references.
pub proof fn lemma_allow_fail_root(tasks: Seq<TaskModel>, name: Seq<char>)
    requires
        spec_find(tasks, name) matches Some(t) && t.allow_fail,
    ensures
        spec_flatten_task(tasks, name, false, Seq::empty()) matches Ok(cs) ==> forall|k: int|
            0 <= k < cs.len() ==> cs[k].allow_fail,
{
    let t = spec_find(tasks, name)->Some_0;
    lemma_flatten_steps_inherits_allow_fail(tasks, name, t.steps, Seq::empty().push(name));
}

impl TaskError {
    /// The error's text, as the runner reports it.
    pub fn message(&self) -> (r: String)
        ensures
            match self {
                TaskError::UnknownTask { name } => r@ == "unknown task `"@ + name@ + "`"@,
                TaskError::CycleDetected { path } => r@ == "task recursion detected: "@
                    + crate::text::spec_join(path.deep_view(), " -> "@),
                TaskError::EmptyCommand { task } => r@ == "task `"@ + task@
                    + "` contains an empty command"@,
            },
    {
        match self {
            TaskError::UnknownTask { name } => {
                let mut out = String::new();
                out.append("unknown task `");
                out.append(name.as_str());
                out.append("`");
                proof {
                    assert(out@ =~= "unknown task `"@ + name@ + "`"@);
                }
                out
            },
            TaskError::CycleDetected { path } => {
                let mut out = String::new();
                out.append("task recursion detected: ");
                let chain = crate::text::join(path, " -> ");
                out.append(chain.as_str());
                out
            },
            TaskError::EmptyCommand { task } => {
                let mut out = String::new();
                out.append("task `");
                out.append(task.as_str());
                out.append("` contains an empty command");
                proof {
                    assert(out@ =~= "task `"@ + task@ + "` contains an empty command"@);
                }
                out
            },
        }
    }
}

} // verus!
