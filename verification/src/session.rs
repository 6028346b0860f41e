//! Per-virtual-user session state: variables and `{{name}}` templates.
use vstd::prelude::*;
use crate::string_map::StringMap;
use crate::text::{chars_of, string_of};
use crate::clock::unix_time_millis;

verus! {

/// A character that may appear in a variable name inside `{{...}}`
/// (`[a-zA-Z0-9_]`).
pub open spec fn is_name_char(c: char) -> bool {
    ('a' <= c && c <= 'z') || ('A' <= c && c <= 'Z') || ('0' <= c && c <= '9') || c == '_'
}

/// Length of the run of name characters of `s` that starts at `j`.
pub open spec fn name_run(s: Seq<char>, j: int) -> nat
    decreases s.len() - j,
{
    if 0 <= j < s.len() && is_name_char(s[j]) {
        1 + name_run(s, j + 1)
    } else {
        0
    }
}

/// If a placeholder `{{name}}` starts at `i`, the length of its name.
pub open spec fn placeholder_at(s: Seq<char>, i: int) -> Option<nat> {
    if 0 <= i && i + 1 < s.len() && s[i] == '{' && s[i + 1] == '{' {
        let k = name_run(s, i + 2);
        if k >= 1 && i + 3 + k < s.len() && s[i + 2 + k] == '}' && s[i + 3 + k] == '}' {
            Some(k)
        } else {
            None
        }
    } else {
        None
    }
}

/// The value of a variable, or the empty text when it is not set.
pub open spec fn lookup_or_empty(vars: Map<Seq<char>, Seq<char>>, name: Seq<char>) -> Seq<char> {
    if vars.contains_key(name) {
        vars[name]
    } else {
        Seq::empty()
    }
}

/// The rendering of `s` from position `i` on: scanning left to right, each
/// placeholder `{{name}}` is replaced by the variable's value (empty when
/// unset) and every other character is kept.
pub open spec fn render_from(s: Seq<char>, i: int, vars: Map<Seq<char>, Seq<char>>) -> Seq<char>
    decreases s.len() - i,
{
    if i < 0 || i >= s.len() {
        Seq::empty()
    } else {
        match placeholder_at(s, i) {
            Some(k) => lookup_or_empty(vars, s.subrange(i + 2, i + 2 + k)) + render_from(
                s,
                i + 4 + k,
                vars,
            ),
            None => seq![s[i]] + render_from(s, i + 1, vars),
        }
    }
}

/// The rendering of a whole template.
pub open spec fn render(s: Seq<char>, vars: Map<Seq<char>, Seq<char>>) -> Seq<char> {
    render_from(s, 0, vars)
}

proof fn lemma_name_run(s: Seq<char>, j: int, m: int)
    requires
        0 <= j,
        0 <= m,
        j + m <= s.len(),
        forall|t: int| j <= t < j + m ==> is_name_char(s[t]),
        j + m == s.len() || !is_name_char(s[j + m]),
    ensures
        name_run(s, j) == m,
    decreases m,
{
    if m > 0 {
        lemma_name_run(s, j + 1, m - 1);
    }
}

fn name_char(c: char) -> (r: bool)
    ensures
        r == is_name_char(c),
{
    ('a' <= c && c <= 'z') || ('A' <= c && c <= 'Z') || ('0' <= c && c <= '9') || c == '_'
}

/// The placeholder starting at position `i` of `s`, if any (its name length).
fn placeholder_len(s: &[char], i: usize) -> (r: Option<usize>)
    requires
        i < s.len(),
    ensures
        match r {
            Some(k) => placeholder_at(s@, i as int) == Some(k as nat),
            None => placeholder_at(s@, i as int) is None,
        },
{
    if i + 1 >= s.len() || s[i] != '{' || s[i + 1] != '{' {
        return None;
    }
    let start = i + 2;
    let mut j = start;
    while j < s.len() && name_char(s[j])
        invariant
            start <= j <= s.len(),
            start == i + 2,
            forall|t: int| start <= t < j ==> is_name_char(s@[t]),
        decreases s.len() - j,
    {
        j += 1;
    }
    proof {
        lemma_name_run(s@, start as int, j - start);
    }
    let k = j - start;
    if k >= 1 && j < s.len() && s.len() - j > 1 && s[j] == '}' && s[j + 1] == '}' {
        Some(k)
    } else {
        None
    }
}

/// Renders the template `t` with the variables of `vars`.
fn render_template(t: &[char], vars: &StringMap) -> (r: String)
    ensures
        r@ == render(t@, vars@),
{
    let mut out = String::new();
    let mut i: usize = 0;
    while i < t.len()
        invariant
            i <= t.len(),
            out@ + render_from(t@, i as int, vars@) == render(t@, vars@),
        decreases t.len() - i,
    {
        let ghost before = out@;
        match placeholder_len(t, i) {
            Some(k) => {
                let name = string_of(&t[i + 2..i + 2 + k]);
                proof {
                    assert(name@ =~= t@.subrange(i + 2, i + 2 + k));
                }
                match vars.get(name.as_str()) {
                    Some(v) => {
                        out.append(v.as_str());
                    },
                    None => {},
                }
                proof {
                    assert(out@ == before + lookup_or_empty(vars@, t@.subrange(i + 2, i + 2 + k)));
                    assert(out@ + render_from(t@, i + 4 + k, vars@) =~= before + render_from(
                        t@,
                        i as int,
                        vars@,
                    ));
                }
                i = i + 4 + k;
            },
            None => {
                crate::text::append_char(&mut out, t[i]);
                proof {
                    assert(out@ + render_from(t@, i + 1, vars@) =~= before + render_from(
                        t@,
                        i as int,
                        vars@,
                    ));
                }
                i = i + 1;
            },
        }
    }
    proof {
        assert(out@ + render_from(t@, i as int, vars@) =~= out@);
    }
    out
}

/// The isolated state of one virtual user: its variables (feeder data and
/// extracted values), its scenario and the time it started.
pub struct Session {
    /// User ID for this virtual user.
    pub user_id: usize,
    /// Session-scoped variables (feeder data, extracted values).
    pub variables: StringMap,
    /// Scenario name for logging and reporting.
    pub scenario_name: String,
    /// Start time of this session (Unix time in milliseconds).
    pub start_time: i64,
}

impl Clone for Session {
    fn clone(&self) -> (r: Self)
        ensures
            r.user_id == self.user_id,
            r.vars() == self.vars(),
            r.scenario_name@ == self.scenario_name@,
            r.start_time == self.start_time,
    {
        Session {
            user_id: self.user_id,
            variables: self.variables.clone(),
            scenario_name: self.scenario_name.clone(),
            start_time: self.start_time,
        }
    }
}

impl Session {
    /// The session's variables.
    pub closed spec fn vars(&self) -> Map<Seq<char>, Seq<char>> {
        self.variables@
    }

    /// A session for user `user_id` of scenario `scenario_name`, with no
    /// variables, started now.
    pub fn new(user_id: usize, scenario_name: String) -> (s: Self)
        ensures
            s.user_id == user_id,
            s.scenario_name@ == scenario_name@,
            s.vars() == Map::<Seq<char>, Seq<char>>::empty(),
    {
        Session {
            user_id,
            variables: StringMap::new(),
            scenario_name,
            start_time: unix_time_millis(),
        }
    }

    /// Sets a variable.
    pub fn set(&mut self, key: String, value: String)
        ensures
            final(self).vars() == old(self).vars().insert(key@, value@),
            final(self).user_id == old(self).user_id,
            final(self).scenario_name@ == old(self).scenario_name@,
            final(self).start_time == old(self).start_time,
    {
        self.variables.insert(key, value);
    }

    /// Sets a variable to a constant text.
    pub fn set_static(&mut self, key: String, value: &'static str)
        ensures
            final(self).vars() == old(self).vars().insert(key@, value@),
            final(self).user_id == old(self).user_id,
            final(self).scenario_name@ == old(self).scenario_name@,
            final(self).start_time == old(self).start_time,
    {
        self.variables.insert(key, value.to_owned());
    }

    /// The value of a variable, if it is set.
    pub fn get(&self, key: &str) -> (r: Option<&str>)
        ensures
            r is Some <==> self.vars().contains_key(key@),
            r is Some ==> r->0@ == self.vars()[key@],
    {
        match self.variables.get(key) {
            Some(v) => Some(v.as_str()),
            None => None,
        }
    }

    /// Sets every variable of `data`; values of `data` replace existing ones.
    pub fn set_all(&mut self, data: StringMap)
        ensures
            final(self).vars() == old(self).vars().union_prefer_right(data@),
            final(self).user_id == old(self).user_id,
            final(self).scenario_name@ == old(self).scenario_name@,
            final(self).start_time == old(self).start_time,
    {
        self.variables.extend(data);
    }

    /// Replaces each `{{name}}` of `template` by the value of variable
    /// `name`, or by nothing when it is not set.
    pub fn resolve_template(&self, template: &str) -> (r: String)
        ensures
            r@ == render(template@, self.vars()),
    {
        let t = chars_of(template);
        render_template(t.as_slice(), &self.variables)
    }

    /// Removes every variable.
    pub fn clear_variables(&mut self)
        ensures
            final(self).vars() == Map::<Seq<char>, Seq<char>>::empty(),
            final(self).user_id == old(self).user_id,
            final(self).scenario_name@ == old(self).scenario_name@,
            final(self).start_time == old(self).start_time,
    {
        self.variables.clear();
    }

    /// All variables.
    pub fn get_all_variables(&self) -> (r: &StringMap)
        ensures
            r@ == self.vars(),
    {
        &self.variables
    }

    /// Whether a variable is set.
    pub fn has_variable(&self, key: &str) -> (r: bool)
        ensures
            r == self.vars().contains_key(key@),
    {
        self.variables.contains_key(key)
    }

    /// Removes a variable, giving back its value.
    pub fn remove(&mut self, key: &str) -> (r: Option<String>)
        ensures
            final(self).vars() == old(self).vars().remove(key@),
            r is Some <==> old(self).vars().contains_key(key@),
            r is Some ==> r->0@ == old(self).vars()[key@],
            final(self).user_id == old(self).user_id,
            final(self).scenario_name@ == old(self).scenario_name@,
            final(self).start_time == old(self).start_time,
    {
        self.variables.remove(key)
    }
}

/// A text without `{` renders to itself, whatever the variables.
pub proof fn law_render_plain_text(s: Seq<char>, vars: Map<Seq<char>, Seq<char>>)
    requires
        forall|i: int| 0 <= i < s.len() ==> s[i] != '{',
    ensures
        render(s, vars) == s,
{
    lemma_render_plain_from(s, 0, vars);
    assert(s.skip(0) =~= s);
}

proof fn lemma_render_plain_from(s: Seq<char>, i: int, vars: Map<Seq<char>, Seq<char>>)
    requires
        0 <= i <= s.len(),
        forall|j: int| 0 <= j < s.len() ==> s[j] != '{',
    ensures
        render_from(s, i, vars) == s.skip(i),
    decreases s.len() - i,
{
    if i < s.len() {
        lemma_render_plain_from(s, i + 1, vars);
        assert(seq![s[i]] + s.skip(i + 1) =~= s.skip(i));
    } else {
        assert(s.skip(i) =~= Seq::<char>::empty());
    }
}

/// A template that is exactly one placeholder `{{name}}` renders to the
/// variable's value, or to nothing when the variable is not set.
pub proof fn law_render_single_placeholder(name: Seq<char>, vars: Map<Seq<char>, Seq<char>>)
    requires
        name.len() > 0,
        forall|i: int| 0 <= i < name.len() ==> is_name_char(name[i]),
    ensures
        render(seq!['{', '{'] + name + seq!['}', '}'], vars) == lookup_or_empty(vars, name),
{
    let t = seq!['{', '{'] + name + seq!['}', '}'];
    lemma_name_run(t, 2, name.len() as int);
    assert(t.subrange(2, 2 + name.len() as int) =~= name);
    assert(placeholder_at(t, 0) == Some(name.len()));
    assert(render_from(t, 4 + name.len() as int, vars) == Seq::<char>::empty());
    assert(lookup_or_empty(vars, name) + Seq::<char>::empty() =~= lookup_or_empty(vars, name));
}

/// Reading a variable after setting it gives the value set, and setting it
/// leaves every other variable as it was.
pub proof fn law_set_then_get(
    vars: Map<Seq<char>, Seq<char>>,
    key: Seq<char>,
    value: Seq<char>,
    other: Seq<char>,
)
    ensures
        vars.insert(key, value).contains_key(key),
        vars.insert(key, value)[key] == value,
        other != key ==> (vars.insert(key, value).contains_key(other) == vars.contains_key(other)),
        other != key && vars.contains_key(other) ==> vars.insert(key, value)[other] == vars[other],
{
}

/// Removing a variable makes it unset and leaves the others.
pub proof fn law_remove_unsets(vars: Map<Seq<char>, Seq<char>>, key: Seq<char>, other: Seq<char>)
    ensures
        !vars.remove(key).contains_key(key),
        other != key ==> (vars.remove(key).contains_key(other) == vars.contains_key(other)),
        other != key && vars.contains_key(other) ==> vars.remove(key)[other] == vars[other],
{
}

} // verus!
