use vstd::prelude::*;
use crate::code::parser::AbstractSyntaxTree;
use crate::code::token::Token;

verus! {

/// `names` with `name` bound to `id`: the first entry for `name` takes the new
/// id, or a new entry is added at the end.
pub open spec fn bind(names: Seq<(Seq<char>, u32)>, name: Seq<char>, id: u32) -> Seq<(Seq<char>, u32)> {
    if exists|i: int| 0 <= i < names.len() && #[trigger] names[i].0 == name {
        let i = choose|i: int| 0 <= i < names.len() && #[trigger] names[i].0 == name && forall|j: int| 0 <= j < i ==> names[j].0 != name;
        names.update(i, (name, id))
    } else {
        names.push((name, id))
    }
}

/// What the interpreter knows of its functions: their names with ids, the
/// functions by id, the next id to give, and the id of `start`.
pub struct Registry {
    pub names: Seq<(Seq<char>, u32)>,
    pub functions: Seq<(u32, AbstractSyntaxTree)>,
    pub next_id: nat,
    pub start_id: u32,
}

/// The registry after the functions of `program` are registered in order,
/// each under the next id; a function named "start" becomes the start.
pub open spec fn registered(program: Seq<AbstractSyntaxTree>, r: Registry) -> Registry
    decreases program.len(),
{
    if program.len() == 0 {
        r
    } else {
        let f = program[0];
        let next = if f is Function {
            let name = f->Function_name@;
            Registry {
                names: bind(r.names, name, r.next_id as u32),
                functions: r.functions.push((r.next_id as u32, f)),
                next_id: r.next_id + 1,
                start_id: if name == "start"@ {
                    r.next_id as u32
                } else {
                    r.start_id
                },
            }
        } else {
            r
        };
        registered(program.drop_first(), next)
    }
}

/// How many functions `program` defines.
pub open spec fn function_count(program: Seq<AbstractSyntaxTree>) -> nat
    decreases program.len(),
{
    if program.len() == 0 {
        0
    } else {
        (if program[0] is Function {
            1nat
        } else {
            0nat
        }) + function_count(program.drop_first())
    }
}

/// The interpreter's state: its functions by name and by id, its variables,
/// and the ids given so far.
pub struct Interpreter {
    function_map: Vec<(String, u32)>,
    functions: Vec<(u32, AbstractSyntaxTree)>,
    variables: Vec<((String, u32), Token)>,
    function_id: u32,
    start_function_id: u32,
}

impl Interpreter {
    /// What the interpreter knows of its functions.
    pub closed spec fn registry(&self) -> Registry {
        Registry {
            names: Seq::new(self.function_map@.len(), |i: int| (self.function_map@[i].0@, self.function_map@[i].1)),
            functions: self.functions@,
            next_id: self.function_id as nat,
            start_id: self.start_function_id,
        }
    }

    /// The number of variables held.
    pub closed spec fn variable_count(&self) -> nat {
        self.variables@.len()
    }

    /// An interpreter with no function and no variable.
    pub fn new() -> (r: Self)
        ensures
            r.registry() == (Registry { names: seq![], functions: seq![], next_id: 0, start_id: 0 }),
            r.variable_count() == 0,
    {
        let r = Interpreter {
            function_map: Vec::new(),
            functions: Vec::new(),
            variables: Vec::new(),
            function_id: 0,
            start_function_id: 0,
        };
        assert(r.registry().names =~= seq![]);
        r
    }

    /// The id of the function named "start".
    pub fn start_function_id(&self) -> (r: u32)
        ensures
            r == self.registry().start_id,
    {
        self.start_function_id
    }

    /// The next id to give, which is the number of functions registered by
    /// a fresh interpreter.
    pub fn function_id(&self) -> (r: u32)
        ensures
            r == self.registry().next_id,
    {
        self.function_id
    }

    /// Binds `name` to `id` in the function map.
    fn bind_name(&mut self, name: String, id: u32)
        ensures
            final(self).registry() == (Registry { names: bind(old(self).registry().names, name@, id), ..old(self).registry() }),
            final(self).variable_count() == old(self).variable_count(),
    {
        let ghost names = self.registry().names;
        let mut i: usize = 0;
        while i < self.function_map.len()
            invariant
                i <= self.function_map@.len(),
                names == old(self).registry().names,
                self.function_map@ == old(self).function_map@,
                self.functions@ == old(self).functions@,
                self.variables@ == old(self).variables@,
                self.function_id == old(self).function_id,
                self.start_function_id == old(self).start_function_id,
                forall|j: int| 0 <= j < i ==> names[j].0 != name@,
            decreases self.function_map@.len() - i,
        {
            if self.function_map[i].0 == name {
                assert(names[i as int].0 == name@);
                proof {
                    let k = choose|k: int|
                        0 <= k < names.len() && #[trigger] names[k].0 == name@ && forall|j: int|
                            0 <= j < k ==> names[j].0 != name@;
                    assert(names[i as int].0 == name@ && forall|j: int| 0 <= j < i ==> names[j].0 != name@);
                    if k < i {
                        assert(names[k].0 != name@);
                    } else if k > i {
                        assert(names[i as int].0 != name@);
                    }
                }
                self.function_map[i] = (name, id);
                assert(self.registry().names =~= names.update(i as int, (name@, id)));
                return;
            }
            i = i + 1;
        }
        self.function_map.push((name, id));
        assert(self.registry().names =~= names.push((name@, id)));
    }

    /// Registers every function of `program` under the next free id, and
    /// remembers the one named "start".
    pub fn pre_run(&mut self, program: Vec<AbstractSyntaxTree>)
        requires
            exists|i: int| 0 <= i < program@.len() && (#[trigger] program@[i] is Function) && program@[i]->Function_name@ == "start"@,
            old(self).registry().next_id + function_count(program@) <= u32::MAX,
        ensures
            final(self).registry() == registered(program@, old(self).registry()),
            final(self).variable_count() == old(self).variable_count(),
    {
        let ghost target = registered(program@, self.registry());
        let mut rest = program;
        while rest.len() > 0
            invariant
                registered(rest@, self.registry()) == target,
                self.registry().next_id + function_count(rest@) <= u32::MAX,
                self.variable_count() == old(self).variable_count(),
            decreases rest@.len(),
        {
            let ghost before = rest@;
            let func = rest.remove(0);
            assert(rest@ =~= before.drop_first());
            if func.is_function() {
                let name = func.function_get_name();
                let is_start = name == String::from_str("start");
                let id = self.function_id;
                self.bind_name(name, id);
                self.functions.push((id, func));
                if is_start {
                    self.start_function_id = id;
                }
                self.function_id = id + 1;
            }
        }
    }
}

} // verus!
