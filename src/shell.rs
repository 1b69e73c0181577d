//! The shell's own state: variables, builtins and aliases, exit status.
use vstd::prelude::*;

use crate::builtins::{Action, Builtin, BuiltinError, NativeBuiltin};
use crate::command::Command;
use crate::utils::{chars_of, string_of};

verus! {

/// How many aliases may lead to one another before a command runs.
pub const MAX_ALIAS_DEPTH: usize = 16;

/// The position of the first entry named `name`, or -1.
pub open spec fn index_of<T>(names: Seq<(String, T)>, name: Seq<char>) -> int
    decreases names.len(),
{
    if names.len() == 0 {
        -1
    } else if index_of(names.drop_last(), name) >= 0 {
        index_of(names.drop_last(), name)
    } else if names.last().0@ == name {
        names.len() - 1
    } else {
        -1
    }
}

/// The position of the first builtin named `name`, or -1.
pub open spec fn builtin_index(b: Seq<Builtin>, name: Seq<char>) -> int
    decreases b.len(),
{
    if b.len() == 0 {
        -1
    } else if builtin_index(b.drop_last(), name) >= 0 {
        builtin_index(b.drop_last(), name)
    } else if b.last().name@ == name {
        b.len() - 1
    } else {
        -1
    }
}

/// The action registered under `name`, if any.
pub open spec fn builtin_named(b: Seq<Builtin>, name: Seq<char>) -> Option<Action> {
    let i = builtin_index(b, name);
    if 0 <= i < b.len() {
        Some(b[i].action)
    } else {
        None
    }
}

/// The value of variable `name`, if set.
pub open spec fn var_named(vars: Seq<(String, String)>, name: Seq<char>) -> Option<String> {
    let i = index_of(vars, name);
    if 0 <= i < vars.len() {
        Some(vars[i].1)
    } else {
        None
    }
}

/// Where a command goes once aliases are followed.
pub enum Resolution {
    Program(String, Seq<String>),
    Native(NativeBuiltin, String, Seq<String>),
    TooDeep,
}

/// Follows aliases from command `name` with arguments `args`, after `depth`
/// of them: a name with no builtin is a program; past the limit any builtin
/// is refused.
pub open spec fn resolution(b: Seq<Builtin>, name: String, args: Seq<String>, depth: nat) -> Resolution
    decreases MAX_ALIAS_DEPTH - depth,
{
    match builtin_named(b, name@) {
        None => Resolution::Program(name, args),
        Some(action) => if depth >= MAX_ALIAS_DEPTH {
            Resolution::TooDeep
        } else {
            match action {
                Action::Native(n) => Resolution::Native(n, name, args),
                Action::Alias { cmd, extra_args } => resolution(
                    b,
                    cmd,
                    extra_args@ + args,
                    depth + 1,
                ),
            }
        },
    }
}

/// A command ready to run: by a native builtin, or as a program.
#[derive(Debug)]
pub struct Resolved {
    pub builtin: Option<NativeBuiltin>,
    pub command: Command,
}

pub struct ShellModel {
    pub exit_code: Option<i32>,
    pub vars: Seq<(String, String)>,
    pub builtins: Seq<Builtin>,
    pub oneshot_var: Option<(String, String)>,
}

#[derive(Debug)]
pub struct Shell {
    exit_code: Option<i32>,
    vars: Vec<(String, String)>,
    builtins: Vec<Builtin>,
    oneshot_var: Option<(String, String)>,
}

impl View for Shell {
    type V = ShellModel;

    closed spec fn view(&self) -> ShellModel {
        ShellModel {
            exit_code: self.exit_code,
            vars: self.vars@,
            builtins: self.builtins@,
            oneshot_var: self.oneshot_var,
        }
    }
}

fn text_eq(a: &String, b: &str) -> (r: bool)
    ensures
        r == (a@ == b@),
{
    let x = chars_of(a.as_str());
    let y = chars_of(b);
    if x.len() != y.len() {
        return false;
    }
    let mut i: usize = 0;
    while i < x.len()
        invariant
            i <= x@.len() == y@.len(),
            x@ == a@,
            y@ == b@,
            forall|j: int| 0 <= j < i ==> x@[j] == y@[j],
        decreases x.len() - i,
    {
        if x[i] != y[i] {
            return false;
        }
        i = i + 1;
    }
    assert(x@ =~= y@);
    true
}

fn find_var(vars: &Vec<(String, String)>, name: &str) -> (r: Option<usize>)
    ensures
        r matches Some(i) ==> i == index_of(vars@, name@) && i < vars@.len(),
        r is None ==> index_of(vars@, name@) == -1,
{
    let mut i: usize = 0;
    while i < vars.len()
        invariant
            i <= vars@.len(),
            index_of(vars@.take(i as int), name@) == -1,
        decreases vars.len() - i,
    {
        proof {
            assert(vars@.take(i + 1).drop_last() =~= vars@.take(i as int));
        }
        if text_eq(&vars[i].0, name) {
            proof {
                lemma_index_prefix(vars@, i as int + 1, name@);
            }
            return Some(i);
        }
        i = i + 1;
    }
    proof {
        assert(vars@.take(vars@.len() as int) =~= vars@);
    }
    None
}

proof fn lemma_index_prefix<T>(s: Seq<(String, T)>, k: int, name: Seq<char>)
    requires
        0 <= k <= s.len(),
        index_of(s.take(k), name) >= 0,
    ensures
        index_of(s, name) == index_of(s.take(k), name),
    decreases s.len() - k,
{
    if k < s.len() {
        assert(s.take(k + 1).drop_last() =~= s.take(k));
        lemma_index_prefix(s, k + 1, name);
    } else {
        assert(s.take(k) =~= s);
    }
}

proof fn lemma_builtin_prefix(s: Seq<Builtin>, k: int, name: Seq<char>)
    requires
        0 <= k <= s.len(),
        builtin_index(s.take(k), name) >= 0,
    ensures
        builtin_index(s, name) == builtin_index(s.take(k), name),
    decreases s.len() - k,
{
    if k < s.len() {
        assert(s.take(k + 1).drop_last() =~= s.take(k));
        lemma_builtin_prefix(s, k + 1, name);
    } else {
        assert(s.take(k) =~= s);
    }
}

proof fn lemma_index_bounds<T>(s: Seq<(String, T)>, name: Seq<char>)
    ensures
        -1 <= index_of(s, name) < s.len(),
        index_of(s, name) >= 0 ==> s[index_of(s, name)].0@ == name,
    decreases s.len(),
{
    if s.len() > 0 {
        lemma_index_bounds(s.drop_last(), name);
    }
}

proof fn lemma_builtin_bounds(s: Seq<Builtin>, name: Seq<char>)
    ensures
        -1 <= builtin_index(s, name) < s.len(),
        builtin_index(s, name) >= 0 ==> s[builtin_index(s, name)].name@ == name,
    decreases s.len(),
{
    if s.len() > 0 {
        lemma_builtin_bounds(s.drop_last(), name);
    }
}

fn find_builtin(b: &Vec<Builtin>, name: &str) -> (r: Option<usize>)
    ensures
        r matches Some(i) ==> i == builtin_index(b@, name@) && i < b@.len(),
        r is None ==> builtin_index(b@, name@) == -1,
{
    let mut i: usize = 0;
    while i < b.len()
        invariant
            i <= b@.len(),
            builtin_index(b@.take(i as int), name@) == -1,
        decreases b.len() - i,
    {
        proof {
            assert(b@.take(i + 1).drop_last() =~= b@.take(i as int));
        }
        if text_eq(&b[i].name, name) {
            proof {
                lemma_builtin_prefix(b@, i as int + 1, name@);
            }
            return Some(i);
        }
        i = i + 1;
    }
    proof {
        assert(b@.take(b@.len() as int) =~= b@);
    }
    None
}

/// Replacing the entry at the first position of its name keeps that
/// position first.
proof fn lemma_index_update<T>(s: Seq<(String, T)>, i: int, e: (String, T))
    requires
        0 <= i < s.len(),
        index_of(s, e.0@) == i,
    ensures
        index_of(s.update(i, e), e.0@) == i,
    decreases s.len(),
{
    let t = s.update(i, e);
    if i < s.len() - 1 {
        assert(t.drop_last() =~= s.drop_last().update(i, e));
        lemma_index_bounds(s.drop_last(), e.0@);
        if index_of(s.drop_last(), e.0@) < 0 {
            assert(false);
        }
        lemma_index_update(s.drop_last(), i, e);
    } else {
        assert(t.drop_last() =~= s.drop_last());
    }
}

proof fn lemma_builtin_update(s: Seq<Builtin>, i: int, e: Builtin)
    requires
        0 <= i < s.len(),
        builtin_index(s, e.name@) == i,
    ensures
        builtin_index(s.update(i, e), e.name@) == i,
    decreases s.len(),
{
    let t = s.update(i, e);
    if i < s.len() - 1 {
        assert(t.drop_last() =~= s.drop_last().update(i, e));
        lemma_builtin_bounds(s.drop_last(), e.name@);
        if builtin_index(s.drop_last(), e.name@) < 0 {
            assert(false);
        }
        lemma_builtin_update(s.drop_last(), i, e);
    } else {
        assert(t.drop_last() =~= s.drop_last());
    }
}

/// The native builtins, each under its name, in a fixed order.
pub open spec fn is_native_table(b: Seq<Builtin>) -> bool {
    &&& b.len() == 9
    &&& b[0].name@ == seq!['c', 'd'] && b[0].action == Action::Native(NativeBuiltin::Cd)
    &&& b[1].name@ == seq!['e', 'x', 'i', 't'] && b[1].action == Action::Native(NativeBuiltin::Exit)
    &&& b[2].name@ == seq!['a', 'l', 'i', 'a', 's'] && b[2].action == Action::Native(
        NativeBuiltin::Alias,
    )
    &&& b[3].name@ == seq!['c', 'o', 'm', 'm', 'a', 'n', 'd'] && b[3].action == Action::Native(
        NativeBuiltin::Command,
    )
    &&& b[4].name@ == seq!['e', 'x', 'e', 'c'] && b[4].action == Action::Native(NativeBuiltin::Exec)
    &&& b[5].name@ == seq!['s', 'e', 't', '_', 'p', 'o', 's'] && b[5].action == Action::Native(
        NativeBuiltin::SetPos,
    )
    &&& b[6].name@ == seq!['s', 'o', 'u', 'r', 'c', 'e'] && b[6].action == Action::Native(
        NativeBuiltin::Source,
    )
    &&& b[7].name@ == seq!['e', 'x', 'p', 'o', 'r', 't'] && b[7].action == Action::Native(
        NativeBuiltin::Export,
    )
    &&& b[8].name@ == seq!['r'] && b[8].action == Action::Native(NativeBuiltin::R)
}

fn name(cs: Vec<char>) -> (r: String)
    ensures
        r@ == cs@,
{
    string_of(cs.as_slice())
}

/// The native builtins, under their names.
pub fn native_builtins() -> (r: Vec<Builtin>)
    ensures
        is_native_table(r@),
{
    let mut r: Vec<Builtin> = Vec::new();
    r.push(Builtin::new_fn(name(vec!['c', 'd']), NativeBuiltin::Cd));
    r.push(Builtin::new_fn(name(vec!['e', 'x', 'i', 't']), NativeBuiltin::Exit));
    r.push(Builtin::new_fn(name(vec!['a', 'l', 'i', 'a', 's']), NativeBuiltin::Alias));
    r.push(
        Builtin::new_fn(name(vec!['c', 'o', 'm', 'm', 'a', 'n', 'd']), NativeBuiltin::Command),
    );
    r.push(Builtin::new_fn(name(vec!['e', 'x', 'e', 'c']), NativeBuiltin::Exec));
    r.push(Builtin::new_fn(name(vec!['s', 'e', 't', '_', 'p', 'o', 's']), NativeBuiltin::SetPos));
    r.push(Builtin::new_fn(name(vec!['s', 'o', 'u', 'r', 'c', 'e']), NativeBuiltin::Source));
    r.push(Builtin::new_fn(name(vec!['e', 'x', 'p', 'o', 'r', 't']), NativeBuiltin::Export));
    r.push(Builtin::new_fn(name(vec!['r']), NativeBuiltin::R));
    proof {
        assert(r@[0].name@ =~= seq!['c', 'd']);
        assert(r@[1].name@ =~= seq!['e', 'x', 'i', 't']);
        assert(r@[2].name@ =~= seq!['a', 'l', 'i', 'a', 's']);
        assert(r@[3].name@ =~= seq!['c', 'o', 'm', 'm', 'a', 'n', 'd']);
        assert(r@[4].name@ =~= seq!['e', 'x', 'e', 'c']);
        assert(r@[5].name@ =~= seq!['s', 'e', 't', '_', 'p', 'o', 's']);
        assert(r@[6].name@ =~= seq!['s', 'o', 'u', 'r', 'c', 'e']);
        assert(r@[7].name@ =~= seq!['e', 'x', 'p', 'o', 'r', 't']);
        assert(r@[8].name@ =~= seq!['r']);
    }
    r
}

/// Registering a builtin makes its name stand for its action.
pub proof fn lemma_register_then_lookup(m: ShellModel, b: Builtin, n: ShellModel)
    requires
        registered(m.builtins, b, n.builtins),
    ensures
        builtin_named(n.builtins, b.name@) == Some(b.action),
{
    let i = builtin_index(m.builtins, b.name@);
    lemma_builtin_bounds(m.builtins, b.name@);
    if i >= 0 {
        lemma_builtin_update(m.builtins, i, b);
    } else {
        assert(n.builtins.drop_last() =~= m.builtins);
    }
}

/// Setting a variable makes its name stand for the value.
pub proof fn lemma_set_then_get(m: ShellModel, name: String, value: String, n: ShellModel)
    requires
        assigned(m.vars, name, value, n.vars),
    ensures
        var_named(n.vars, name@) == Some(value),
{
    let i = index_of(m.vars, name@);
    lemma_index_bounds(m.vars, name@);
    if i >= 0 {
        lemma_index_update(m.vars, i, (name, value));
    } else {
        assert(n.vars.drop_last() =~= m.vars);
    }
}

/// `after` is `b` with `x` registered: it replaces the entry of the same
/// name, or is added at the end.
pub open spec fn registered(b: Seq<Builtin>, x: Builtin, after: Seq<Builtin>) -> bool {
    let i = builtin_index(b, x.name@);
    if 0 <= i < b.len() {
        after == b.update(i, x)
    } else {
        after == b.push(x)
    }
}

/// `after` is `vars` with `name` set to `value`.
pub open spec fn assigned(vars: Seq<(String, String)>, name: String, value: String, after: Seq<(String, String)>) -> bool {
    let i = index_of(vars, name@);
    if 0 <= i < vars.len() {
        after == vars.update(i, (name, value))
    } else {
        after == vars.push((name, value))
    }
}

/// The position of the first `=` in `s`, or -1.
pub open spec fn first_eq(s: Seq<char>) -> int
    decreases s.len(),
{
    if s.len() == 0 {
        -1
    } else if s[0] == '=' {
        0
    } else if first_eq(s.drop_first()) < 0 {
        -1
    } else {
        first_eq(s.drop_first()) + 1
    }
}

proof fn lemma_first_eq(s: Seq<char>)
    ensures
        -1 <= first_eq(s) < s.len(),
        first_eq(s) >= 0 ==> s[first_eq(s)] == '=',
        forall|j: int| 0 <= j < s.len() && (first_eq(s) < 0 || j < first_eq(s)) ==> s[j] != '=',
    decreases s.len(),
{
    if s.len() > 0 {
        lemma_first_eq(s.drop_first());
        assert forall|j: int| 0 <= j < s.len() && (first_eq(s) < 0 || j < first_eq(s)) implies s[j]
            != '=' by {
            if j > 0 {
                assert(s[j] == s.drop_first()[j - 1]);
            }
        }
    }
}

/// Splits `NAME=VALUE` at its first `=`; none without one.
pub fn split_assignment(text: &str) -> (r: Option<(String, String)>)
    ensures
        first_eq(text@) < 0 ==> r is None,
        first_eq(text@) >= 0 ==> (r matches Some(p) && p.0@ == text@.take(first_eq(text@))
            && p.1@ == text@.skip(first_eq(text@) + 1)),
{
    let w = chars_of(text);
    let mut e: usize = 0;
    proof {
        lemma_first_eq(w@);
    }
    while e < w.len() && w[e] != '='
        invariant
            e <= w@.len(),
            w@ == text@,
            forall|j: int| 0 <= j < e ==> w@[j] != '=',
        decreases w.len() - e,
    {
        e = e + 1;
    }
    if e == w.len() {
        proof {
            if first_eq(w@) >= 0 {
                assert(w@[first_eq(w@)] == '=');
            }
        }
        return None;
    }
    proof {
        if first_eq(w@) < 0 || first_eq(w@) > e {
            assert(w@[e as int] == '=');
        }
        if first_eq(w@) < e {
            assert(w@[first_eq(w@)] == '=');
        }
    }
    let name = string_of(vstd::slice::slice_subrange(w.as_slice(), 0, e));
    let value = string_of(vstd::slice::slice_subrange(w.as_slice(), e + 1, w.len()));
    proof {
        assert(name@ =~= w@.take(e as int));
        assert(value@ =~= w@.skip(e + 1));
    }
    Some((name, value))
}

impl Shell {
    pub fn new() -> (r: Shell)
        ensures
            r@.exit_code is None,
            r@.vars.len() == 0,
            is_native_table(r@.builtins),
            r@.oneshot_var is None,
    {
        Shell { exit_code: None, vars: Vec::new(), builtins: native_builtins(), oneshot_var: None }
    }

    /// Adds a builtin, replacing one of the same name.
    pub fn register_builtin(&mut self, builtin: Builtin)
        ensures
            registered(old(self)@.builtins, builtin, final(self)@.builtins),
            final(self)@.vars == old(self)@.vars,
            final(self)@.exit_code == old(self)@.exit_code,
            final(self)@.oneshot_var == old(self)@.oneshot_var,
    {
        match find_builtin(&self.builtins, builtin.name.as_str()) {
            Some(i) => {
                self.builtins.set(i, builtin);
            },
            None => {
                self.builtins.push(builtin);
            },
        }
    }

    /// The action registered under `name`.
    pub fn builtin(&self, name: &str) -> (r: Option<&Action>)
        ensures
            match r {
                Some(a) => builtin_named(self@.builtins, name@) == Some(*a),
                None => builtin_named(self@.builtins, name@) is None,
            },
    {
        match find_builtin(&self.builtins, name) {
            Some(i) => Some(&self.builtins[i].action),
            None => None,
        }
    }

    /// All builtins and aliases, in the order they were registered.
    pub fn builtins(&self) -> (r: &[Builtin])
        ensures
            r@ == self@.builtins,
    {
        self.builtins.as_slice()
    }

    /// Removes the alias `name`; a native builtin of that name stays.
    /// Returns whether an alias was removed.
    pub fn remove_alias(&mut self, name: &str) -> (r: bool)
        ensures
            ({
                let i = builtin_index(old(self)@.builtins, name@);
                if 0 <= i < old(self)@.builtins.len() && old(self)@.builtins[i].action is Alias {
                    r && final(self)@.builtins == old(self)@.builtins.remove(i)
                } else {
                    !r && final(self)@.builtins == old(self)@.builtins
                }
            }),
            final(self)@.vars == old(self)@.vars,
            final(self)@.exit_code == old(self)@.exit_code,
            final(self)@.oneshot_var == old(self)@.oneshot_var,
    {
        match find_builtin(&self.builtins, name) {
            Some(i) => {
                let is_alias = match &self.builtins[i].action {
                    Action::Alias { .. } => true,
                    Action::Native(_) => false,
                };
                if is_alias {
                    self.builtins.remove(i);
                }
                is_alias
            },
            None => false,
        }
    }

    /// Asks the shell to stop with `code`.
    pub fn exit(&mut self, code: i32)
        ensures
            final(self)@ == (ShellModel { exit_code: Some(code), ..old(self)@ }),
    {
        self.exit_code = Some(code);
    }

    pub fn exit_code(&self) -> (r: Option<i32>)
        ensures
            r == self@.exit_code,
    {
        self.exit_code
    }

    pub fn set_var(&mut self, name: String, value: String)
        ensures
            assigned(old(self)@.vars, name, value, final(self)@.vars),
            final(self)@.builtins == old(self)@.builtins,
            final(self)@.exit_code == old(self)@.exit_code,
            final(self)@.oneshot_var == old(self)@.oneshot_var,
    {
        match find_var(&self.vars, name.as_str()) {
            Some(i) => {
                self.vars.set(i, (name, value));
            },
            None => {
                self.vars.push((name, value));
            },
        }
    }

    pub fn get_var(&self, name: &str) -> (r: Option<String>)
        ensures
            r == var_named(self@.vars, name@),
    {
        match find_var(&self.vars, name) {
            Some(i) => Some(self.vars[i].1.clone()),
            None => None,
        }
    }

    /// Hands out the variable that applies to the next program only.
    pub fn take_oneshot_var(&mut self) -> (r: Option<(String, String)>)
        ensures
            r == old(self)@.oneshot_var,
            final(self)@ == (ShellModel { oneshot_var: None, ..old(self)@ }),
    {
        let r = self.oneshot_var.take();
        r
    }

    /// Handles a leading `NAME=VALUE`. Alone it sets the variable and
    /// nothing runs; before a command it applies to that command only, and
    /// the next word becomes the command.
    pub fn try_command_or_var(&mut self, cmd: Command) -> (r: Option<Command>)
        ensures
            ({
                let w = cmd.command@;
                let e = first_eq(w);
                if e < 0 {
                    r == Some(cmd) && final(self)@ == old(self)@
                } else if cmd.args@.len() == 0 {
                    r is None && final(self)@.builtins == old(self)@.builtins && final(self)@.exit_code
                        == old(self)@.exit_code && final(self)@.oneshot_var == old(self)@.oneshot_var
                        && exists|n: String, v: String|
                        n@ == w.take(e) && v@ == w.skip(e + 1) && assigned(
                            old(self)@.vars,
                            n,
                            v,
                            final(self)@.vars,
                        )
                } else {
                    &&& r matches Some(c) && c.command == cmd.args@[0] && c.args@
                        == cmd.args@.drop_first() && c.special_action == cmd.special_action
                    &&& final(self)@.oneshot_var matches Some(p) && p.0@ == w.take(e) && p.1@ == w.skip(
                        e + 1,
                    )
                    &&& final(self)@.vars == old(self)@.vars
                    &&& final(self)@.builtins == old(self)@.builtins
                    &&& final(self)@.exit_code == old(self)@.exit_code
                }
            }),
    {
        let (name, value) = match split_assignment(cmd.command.as_str()) {
            Some(p) => p,
            None => return Some(cmd),
        };
        if cmd.args.len() == 0 {
            self.set_var(name, value);
            None
        } else {
            self.oneshot_var = Some((name, value));
            Some(cmd.shift())
        }
    }

    /// Follows aliases from `cmd` until it reaches a native builtin or a
    /// program; an alias adds its arguments before the given ones.
    pub fn resolve(&self, command: Command) -> (r: Result<Resolved, BuiltinError>)
        ensures
            match resolution(self@.builtins, command.command, command.args@, 0) {
                Resolution::Program(name, args) => r matches Ok(x) && x.builtin is None
                    && x.command.command == name && x.command.args@ == args
                    && x.command.special_action == command.special_action,
                Resolution::Native(n, name, args) => r matches Ok(x) && x.builtin == Some(n)
                    && x.command.command == name && x.command.args@ == args
                    && x.command.special_action == command.special_action,
                Resolution::TooDeep => r == Err::<Resolved, BuiltinError>(BuiltinError::TooDeep),
            },
    {
        let ghost special = command.special_action;
        let ghost start = (command.command, command.args@);
        let ghost b = self@.builtins;
        let mut cmd = command;
        let mut depth: usize = 0;
        loop
            invariant
                depth <= MAX_ALIAS_DEPTH,
                b == self@.builtins,
                special == command.special_action,
                start == (command.command, command.args@),
                cmd.special_action == special,
                resolution(self@.builtins, start.0, start.1, 0) == resolution(
                    self@.builtins,
                    cmd.command,
                    cmd.args@,
                    depth as nat,
                ),
            decreases MAX_ALIAS_DEPTH - depth,
        {
            match self.builtin(cmd.command.as_str()) {
                None => {
                    return Ok(Resolved { builtin: None, command: cmd });
                },
                Some(action) => {
                    if depth >= MAX_ALIAS_DEPTH {
                        return Err(BuiltinError::TooDeep);
                    }
                    match action {
                        Action::Native(n) => {
                            return Ok(Resolved { builtin: Some(*n), command: cmd });
                        },
                        Action::Alias { cmd: target, extra_args } => {
                            let mut args = crate::command::clone_words(extra_args, 0, extra_args.len());
                            proof {
                                assert(extra_args@.subrange(0, extra_args@.len() as int) =~= extra_args@);
                            }
                            let mut rest = cmd.args;
                            args.append(&mut rest);
                            cmd = Command { command: target.clone(), args, special_action: cmd.special_action };
                            depth = depth + 1;
                        },
                    }
                },
            }
        }
    }
}

} // verus!
