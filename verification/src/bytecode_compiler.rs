//! Compiling syntax trees to register bytecode, proved to follow the
//! compilation steps of `bytecode_rules`. Number constants are kept as the
//! text of their literals; the chunk's user turns them into values.

use vstd::prelude::*;
use crate::ast::{AstNode, BinaryOperator, MatchArm, Parameter, Pattern, StructField, TypeAnnotation, UnaryOperator};
use crate::bytecode::{patch_jump, Instruction};
use crate::bytecode_rules::{
    add_const, aborts, load_const, arm_test, arms_code, assoc_insert, bind_code, assign_code, binary_instruction,
    const_pos, expr_code, exprs_code, frees, free, emit, initial_state, jump_back, lookup, map_fields_code, new_local,
    params_code, patch, patch_all, program_code, resolve, resolve_scopes, set_current, stmt_code, stmts_code,
    store_args, take_reg, unary_instruction, values_code, variant_test, wrap_code, wrapper_instruction, yield_code,
    code_kept, is_jump, CState, CompileErrorView, ConstView, Loc, Out, Stop, Wrapper,
};
use crate::debug_text::{node_debug_text, texts_debug_text};
use crate::parser::{lemma_types_view, type_view, types_view};
use crate::parser::grammar::form_fields_view;
use crate::module_resolver::text_eq;
use crate::ast_copy::{copy_fields, copy_type, copy_types};
use crate::text::{push_str, usize_to_string};

verus! {

broadcast use crate::bytecode_rules::lemma_code_kept_trans;

/// A constant of the pool; a number is held as the text of its literal.
#[derive(Debug)]
pub enum ConstantValue {
    Number(String),
    Text(String),
    Truth(bool),
    Nothing,
    StructDef { name: String, fields: Vec<StructField> },
}

impl View for ConstantValue {
    type V = ConstView;

    open spec fn view(&self) -> ConstView {
        match self {
            ConstantValue::Number(t) => ConstView::Number(t@),
            ConstantValue::Text(t) => ConstView::Text(t@),
            ConstantValue::Truth(b) => ConstView::Truth(*b),
            ConstantValue::Nothing => ConstView::Nothing,
            ConstantValue::StructDef { name, fields } => ConstView::StructDef {
                name: name@,
                fields: form_fields_view(fields@),
            },
        }
    }
}

/// Compilation error
#[derive(Debug, Clone)]
pub enum CompileError {
    /// Too many registers needed
    TooManyRegisters,
    /// Too many constants
    TooManyConstants,
    /// Undefined variable
    UndefinedVariable(String),
    /// Unsupported feature
    UnsupportedFeature(String),
}

impl View for CompileError {
    type V = CompileErrorView;

    open spec fn view(&self) -> CompileErrorView {
        match self {
            CompileError::TooManyRegisters => CompileErrorView::TooManyRegisters,
            CompileError::TooManyConstants => CompileErrorView::TooManyConstants,
            CompileError::UndefinedVariable(n) => CompileErrorView::UndefinedVariable(n@),
            CompileError::UnsupportedFeature(m) => CompileErrorView::UnsupportedFeature(m@),
        }
    }
}

/// How compiling stops without a result: an error, or an abort where
/// the compiler cannot go on (see `Stop`).
#[derive(Debug, Clone)]
pub enum CompileStop {
    Error(CompileError),
    Abort,
}

impl View for CompileStop {
    type V = Stop;

    open spec fn view(&self) -> Stop {
        match self {
            CompileStop::Error(e) => Stop::Error(e@),
            CompileStop::Abort => Stop::Abort,
        }
    }
}

/// An unsupported feature, with its message.
fn unsupported_feature(message: String) -> (e: CompileStop)
    ensures
        e@ == Stop::Error(CompileErrorView::UnsupportedFeature(message@)),
{
    CompileStop::Error(CompileError::UnsupportedFeature(message))
}

/// Where a variable lives.
#[derive(Debug)]
pub enum VarLocation {
    Local(u8),
    Global(String),
    Function(usize),
}

impl View for VarLocation {
    type V = Loc;

    open spec fn view(&self) -> Loc {
        match self {
            VarLocation::Local(i) => Loc::Local(*i),
            VarLocation::Global(n) => Loc::Global(n@),
            VarLocation::Function(o) => Loc::Function(*o),
        }
    }
}

/// A compiled chunk: instructions with their source lines, the constant
/// pool, and the chunk's name and counts.
#[derive(Debug)]
pub struct CompiledChunk {
    pub instructions: Vec<Instruction>,
    pub constants: Vec<ConstantValue>,
    pub lines: Vec<usize>,
    pub name: String,
    pub param_count: u8,
    pub local_count: u8,
}

/// A step's result agrees with its outcome.
pub open spec fn agrees<T>(r: Result<T, CompileStop>, o: Out<T>) -> bool {
    match r {
        Ok(x) => o.1 == Ok::<T, Stop>(x),
        Err(e) => o.1 == Err::<T, Stop>(e@),
    }
}

/// The views of constants.
pub open spec fn consts_view(cs: Seq<ConstantValue>) -> Seq<ConstView> {
    cs.map_values(|c: ConstantValue| c@)
}

/// The views of scopes.
pub open spec fn scope_view(sc: Seq<(String, VarLocation)>) -> Seq<(Seq<char>, Loc)> {
    sc.map_values(|e: (String, VarLocation)| (e.0@, e.1@))
}

/// The views of the scope stack.
pub open spec fn scopes_view(scs: Seq<Vec<(String, VarLocation)>>) -> Seq<Seq<(Seq<char>, Loc)>> {
    scs.map_values(|sc: Vec<(String, VarLocation)>| scope_view(sc@))
}

/// The views of the function table.
pub open spec fn functions_view(fs: Seq<(String, usize)>) -> Seq<(Seq<char>, usize)> {
    fs.map_values(|e: (String, usize)| (e.0@, e.1))
}

/// Whether two type annotations are equal.
fn same_type(a: &TypeAnnotation, b: &TypeAnnotation) -> (r: bool)
    ensures
        r == (type_view(*a) == type_view(*b)),
    decreases a, 1nat,
{
    match (a, b) {
        (TypeAnnotation::Named(x), TypeAnnotation::Named(y)) => text_eq(x, y.as_str()),
        (TypeAnnotation::Generic(x), TypeAnnotation::Generic(y)) => text_eq(x, y.as_str()),
        (
            TypeAnnotation::Parametrized { name: x, type_args: xs },
            TypeAnnotation::Parametrized { name: y, type_args: ys },
        ) => text_eq(x, y.as_str()) && same_types(xs, ys),
        (TypeAnnotation::List(x), TypeAnnotation::List(y)) => same_type(&**x, &**y),
        (TypeAnnotation::MapType, TypeAnnotation::MapType) => true,
        (
            TypeAnnotation::Function { param_types: xs, return_type: x },
            TypeAnnotation::Function { param_types: ys, return_type: y },
        ) => same_types(xs, ys) && same_type(&**x, &**y),
        (TypeAnnotation::Optional(x), TypeAnnotation::Optional(y)) => same_type(&**x, &**y),
        (
            TypeAnnotation::Borrowed { lifetime: lx, inner: x, mutable: mx },
            TypeAnnotation::Borrowed { lifetime: ly, inner: y, mutable: my },
        ) => {
            let same_lifetime = match (lx, ly) {
                (Some(p), Some(q)) => text_eq(&p.name, q.name.as_str()),
                (None, None) => true,
                _ => false,
            };
            same_lifetime && *mx == *my && same_type(&**x, &**y)
        },
        _ => false,
    }
}

/// Whether two lists of type annotations are equal.
fn same_types(a: &Vec<TypeAnnotation>, b: &Vec<TypeAnnotation>) -> (r: bool)
    ensures
        r == (types_view(a@) == types_view(b@)),
    decreases a, 0nat,
{
    proof {
        lemma_types_view(a@);
        lemma_types_view(b@);
    }
    if a.len() != b.len() {
        return false;
    }
    let mut i: usize = 0;
    while i < a.len()
        invariant
            i <= a@.len(),
            a@.len() == b@.len(),
            types_view(a@).len() == a@.len(),
            types_view(b@).len() == b@.len(),
            forall|j: int| 0 <= j < a@.len() ==> #[trigger] types_view(a@)[j] == type_view(a@[j]),
            forall|j: int| 0 <= j < b@.len() ==> #[trigger] types_view(b@)[j] == type_view(b@[j]),
            forall|j: int| 0 <= j < i ==> type_view(#[trigger] a@[j]) == type_view(b@[j]),
        decreases a@.len() - i,
    {
        if !same_type(&a[i], &b[i]) {
            assert(types_view(a@)[i as int] != types_view(b@)[i as int]);
            return false;
        }
        i += 1;
    }
    assert(types_view(a@) =~= types_view(b@));
    true
}

/// Whether two lists of struct fields are equal.
fn same_fields(a: &Vec<StructField>, b: &Vec<StructField>) -> (r: bool)
    ensures
        r == (form_fields_view(a@) == form_fields_view(b@)),
{
    if a.len() != b.len() {
        assert(form_fields_view(a@).len() != form_fields_view(b@).len());
        return false;
    }
    let mut i: usize = 0;
    while i < a.len()
        invariant
            i <= a@.len(),
            a@.len() == b@.len(),
            forall|j: int| 0 <= j < i ==> #[trigger] form_fields_view(a@)[j] == form_fields_view(b@)[j],
        decreases a@.len() - i,
    {
        if !(text_eq(&a[i].name, b[i].name.as_str()) && same_type(&a[i].typ, &b[i].typ)) {
            assert(form_fields_view(a@)[i as int] != form_fields_view(b@)[i as int]);
            return false;
        }
        i += 1;
    }
    assert(form_fields_view(a@) =~= form_fields_view(b@));
    true
}

/// Whether two constants are equal.
fn same_constant(a: &ConstantValue, b: &ConstantValue) -> (r: bool)
    ensures
        r == (a@ == b@),
{
    match (a, b) {
        (ConstantValue::Number(x), ConstantValue::Number(y)) => text_eq(x, y.as_str()),
        (ConstantValue::Text(x), ConstantValue::Text(y)) => text_eq(x, y.as_str()),
        (ConstantValue::Truth(x), ConstantValue::Truth(y)) => *x == *y,
        (ConstantValue::Nothing, ConstantValue::Nothing) => true,
        (ConstantValue::StructDef { name: x, fields: xs }, ConstantValue::StructDef { name: y, fields: ys }) => text_eq(x, y.as_str())
            && same_fields(xs, ys),
        _ => false,
    }
}

/// A copy of a constant.
fn copy_constant(c: &ConstantValue) -> (r: ConstantValue)
    ensures
        r@ == c@,
{
    match c {
        ConstantValue::Number(t) => ConstantValue::Number(t.clone()),
        ConstantValue::Text(t) => ConstantValue::Text(t.clone()),
        ConstantValue::Truth(b) => ConstantValue::Truth(*b),
        ConstantValue::Nothing => ConstantValue::Nothing,
        ConstantValue::StructDef { name, fields } => ConstantValue::StructDef {
            name: name.clone(),
            fields: copy_fields(fields),
        },
    }
}

/// `lookup` and `assoc_insert` at the first entry for `k`, or past the end.
proof fn lemma_assoc<V>(m: Seq<(Seq<char>, V)>, k: Seq<char>, v: V, i: int)
    requires
        0 <= i <= m.len(),
        forall|j: int| 0 <= j < i ==> #[trigger] m[j].0 != k,
        i < m.len() ==> m[i].0 == k,
    ensures
        lookup(m, k) == (if i < m.len() { Some(m[i].1) } else { None }),
        assoc_insert(m, k, v) == (if i < m.len() { m.update(i, (k, v)) } else { m.push((k, v)) }),
    decreases i,
{
    if i > 0 {
        let d = m.drop_first();
        assert forall|j: int| 0 <= j < i - 1 implies #[trigger] d[j].0 != k by {
            assert(d[j] == m[j + 1]);
        }
        assert(m[0].0 != k);
        lemma_assoc(d, k, v, i - 1);
        if i < m.len() {
            assert(seq![m[0]] + d.update(i - 1, (k, v)) =~= m.update(i, (k, v)));
        } else {
            assert(seq![m[0]] + d.push((k, v)) =~= m.push((k, v)));
        }
    } else if m.len() == 0 {
        assert(seq![(k, v)] =~= m.push((k, v)));
    }
}

/// `const_pos` is the first equal constant's index, or the pool's length.
proof fn lemma_const_pos(cs: Seq<ConstView>, c: ConstView, i: int)
    requires
        0 <= i <= cs.len(),
        forall|j: int| 0 <= j < i ==> #[trigger] cs[j] != c,
        i < cs.len() ==> cs[i] == c,
    ensures
        const_pos(cs, c) == i,
    decreases i,
{
    if i > 0 {
        let d = cs.drop_first();
        assert forall|j: int| 0 <= j < i - 1 implies #[trigger] d[j] != c by {
            assert(d[j] == cs[j + 1]);
        }
        assert(cs[0] != c);
        lemma_const_pos(d, c, i - 1);
    }
}

/// Bytecode compiler
pub struct BytecodeCompiler {
    instructions: Vec<Instruction>,
    lines: Vec<usize>,
    constants: Vec<ConstantValue>,
    name: String,
    param_count: u8,
    chunk_local_count: u8,
    next_register: u8,
    max_register: u8,
    scopes: Vec<Vec<(String, VarLocation)>>,
    local_count: u8,
    current_function: Option<String>,
    function_entry: Option<usize>,
    function_table: Vec<(String, usize)>,
}

impl BytecodeCompiler {
    /// The compiler's state.
    pub closed spec fn st(&self) -> CState {
        CState {
            code: self.instructions@,
            lines: self.lines@,
            consts: consts_view(self.constants@),
            chunk_locals: self.chunk_local_count,
            next_reg: self.next_register,
            max_reg: self.max_register,
            scopes: scopes_view(self.scopes@),
            locals: self.local_count,
            current_function: match self.current_function {
                Some(n) => Some(n@),
                None => None,
            },
            function_entry: self.function_entry,
            functions: functions_view(self.function_table@),
        }
    }

    /// The chunk's name.
    pub closed spec fn chunk_name(&self) -> Seq<char> {
        self.name@
    }

    /// There is always an innermost scope.
    pub closed spec fn wf(&self) -> bool {
        self.scopes@.len() >= 1 && self.param_count == 0
    }

    /// Create a new bytecode compiler
    pub fn new(name: String) -> (c: BytecodeCompiler)
        ensures
            c.wf(),
            c.st() == initial_state(),
            c.chunk_name() == name@,
    {
        let mut scopes: Vec<Vec<(String, VarLocation)>> = Vec::new();
        scopes.push(Vec::new());
        let c = BytecodeCompiler {
            instructions: Vec::new(),
            lines: Vec::new(),
            constants: Vec::new(),
            name,
            param_count: 0,
            chunk_local_count: 0,
            next_register: 0,
            max_register: 0,
            scopes,
            local_count: 0,
            current_function: None,
            function_entry: None,
            function_table: Vec::new(),
        };
        proof {
            assert(consts_view(c.constants@) =~= Seq::<ConstView>::empty());
            assert(scope_view(c.scopes@[0]@) =~= Seq::<(Seq<char>, Loc)>::empty());
            assert(scopes_view(c.scopes@) =~= seq![Seq::<(Seq<char>, Loc)>::empty()]);
            assert(functions_view(c.function_table@) =~= Seq::<(Seq<char>, usize)>::empty());
            assert(c.st() =~= initial_state());
        }
        c
    }

    /// Emit an instruction
    fn emit(&mut self, instruction: Instruction)
        ensures
            final(self).st() == emit(old(self).st(), instruction),
            final(self).wf() == old(self).wf(),
            final(self).chunk_name() == old(self).chunk_name(),
            code_kept(old(self).st().code, final(self).st().code),
    {
        self.instructions.push(instruction);
        self.lines.push(0);
        assert(self.st() =~= emit(old(self).st(), instruction));
    }

    /// Allocate a register
    fn take_register(&mut self) -> (r: Result<u8, CompileStop>)
        ensures
            final(self).st() == take_reg(old(self).st()).0,
            agrees(r, take_reg(old(self).st())),
            final(self).wf() == old(self).wf(),
            final(self).chunk_name() == old(self).chunk_name(),
            code_kept(old(self).st().code, final(self).st().code),
    {
        if self.next_register == 255 {
            return Err(CompileStop::Error(CompileError::TooManyRegisters));
        }
        let reg = self.next_register;
        self.next_register = self.next_register + 1;
        if reg > self.max_register {
            self.max_register = reg;
        }
        assert(self.st() =~= take_reg(old(self).st()).0);
        Ok(reg)
    }

    /// Free a register (simple stack-based allocator)
    fn free_register(&mut self)
        ensures
            final(self).st() == free(old(self).st()),
            final(self).wf() == old(self).wf(),
            final(self).chunk_name() == old(self).chunk_name(),
            code_kept(old(self).st().code, final(self).st().code),
    {
        if self.next_register > 0 {
            self.next_register = self.next_register - 1;
        }
        assert(self.st() =~= free(old(self).st()));
    }

    /// Free `k` registers.
    fn free_registers(&mut self, k: usize)
        ensures
            final(self).st() == frees(old(self).st(), k as nat),
            final(self).st().scopes == old(self).st().scopes,
            final(self).wf() == old(self).wf(),
            final(self).chunk_name() == old(self).chunk_name(),
            code_kept(old(self).st().code, final(self).st().code),
    {
        let mut i: usize = 0;
        while i < k
            invariant
                i <= k,
                frees(old(self).st(), k as nat) == frees(self.st(), (k - i) as nat),
                self.st().scopes == old(self).st().scopes,
                self.wf() == old(self).wf(),
                code_kept(old(self).st().code, self.st().code),
                self.chunk_name() == old(self).chunk_name(),
            decreases k - i,
        {
            self.free_register();
            i += 1;
        }
    }

    /// Add a constant to the pool and return its index; an equal constant
    /// already in the pool is reused.
    fn add_constant(&mut self, c: ConstantValue) -> (id: u16)
        ensures
            (final(self).st(), id) == add_const(old(self).st(), c@),
            final(self).wf() == old(self).wf(),
            final(self).chunk_name() == old(self).chunk_name(),
            code_kept(old(self).st().code, final(self).st().code),
    {
        let ghost cs = consts_view(self.constants@);
        let mut i: usize = 0;
        while i < self.constants.len()
            invariant
                i <= self.constants@.len(),
                cs == consts_view(self.constants@),
                forall|j: int| 0 <= j < i ==> #[trigger] cs[j] != c@,
            decreases self.constants@.len() - i,
        {
            if same_constant(&self.constants[i], &c) {
                proof {
                    lemma_const_pos(cs, c@, i as int);
                }
                return i as u16;
            }
            i += 1;
        }
        proof {
            lemma_const_pos(cs, c@, i as int);
        }
        let id = self.constants.len() as u16;
        let ghost old_consts = self.constants@;
        self.constants.push(c);
        proof {
            assert(consts_view(self.constants@) =~= cs.push(c@));
            assert(self.st() =~= add_const(old(self).st(), c@).0);
        }
        id
    }

    /// Add a text constant.
    fn add_text(&mut self, t: &String) -> (id: u16)
        ensures
            (final(self).st(), id) == add_const(old(self).st(), ConstView::Text(t@)),
            final(self).wf() == old(self).wf(),
            final(self).chunk_name() == old(self).chunk_name(),
            code_kept(old(self).st().code, final(self).st().code),
    {
        self.add_constant(ConstantValue::Text(t.clone()))
    }

    /// Bind `name` to `loc` in the innermost scope.
    fn set_current(&mut self, name: &String, loc: VarLocation)
        requires
            old(self).wf(),
        ensures
            final(self).st() == set_current(old(self).st(), name@, loc@),
            final(self).wf(),
            final(self).chunk_name() == old(self).chunk_name(),
    {
        let ghost loc_view = loc@;
        let mut scope = match self.scopes.pop() {
            Some(s) => s,
            None => Vec::new(),
        };
        let ghost m = scope_view(scope@);
        let mut i: usize = 0;
        while i < scope.len()
            invariant
                i <= scope@.len(),
                m == scope_view(scope@),
                forall|j: int| 0 <= j < i ==> #[trigger] m[j].0 != name@,
            ensures
                i <= scope@.len(),
                forall|j: int| 0 <= j < i ==> #[trigger] m[j].0 != name@,
                i < scope@.len() ==> m[i as int].0 == name@,
            decreases scope@.len() - i,
        {
            if text_eq(&scope[i].0, name.as_str()) {
                break;
            }
            i += 1;
        }
        proof {
            lemma_assoc(m, name@, loc_view, i as int);
        }
        if i < scope.len() {
            let ghost before = scope@;
            scope.set(i, (name.clone(), loc));
            proof {
                assert(scope_view(scope@) =~= m.update(i as int, (name@, loc_view)));
            }
        } else {
            scope.push((name.clone(), loc));
            proof {
                assert(scope_view(scope@) =~= m.push((name@, loc_view)));
            }
        }
        let ghost popped = self.scopes@;
        self.scopes.push(scope);
        proof {
            assert(popped =~= old(self).scopes@.drop_last());
            assert(scopes_view(self.scopes@) =~= scopes_view(old(self).scopes@).update(
                scopes_view(old(self).scopes@).len() - 1,
                assoc_insert(scopes_view(old(self).scopes@).last(), name@, loc_view),
            ));
            assert(self.st() =~= set_current(old(self).st(), name@, loc_view));
        }
    }

    /// A new local variable slot; a 256th aborts.
    fn new_local(&mut self) -> (r: Result<u8, CompileStop>)
        ensures
            final(self).st() == new_local(old(self).st()).0,
            agrees(r, new_local(old(self).st())),
            final(self).wf() == old(self).wf(),
            final(self).chunk_name() == old(self).chunk_name(),
            code_kept(old(self).st().code, final(self).st().code),
    {
        if self.local_count == 255 {
            return Err(CompileStop::Abort);
        }
        let k = self.local_count;
        self.local_count = self.local_count + 1;
        self.chunk_local_count = self.local_count;
        assert(self.st() =~= new_local(old(self).st()).0);
        Ok(k)
    }

    /// Resolve a variable to its location
    fn resolve_variable(&self, name: &String) -> (r: Result<VarLocation, CompileStop>)
        ensures
            match r {
                Ok(l) => resolve(self.st(), name@) == Ok::<Loc, Stop>(l@),
                Err(e) => resolve(self.st(), name@) == Err::<Loc, Stop>(e@),
            },
    {
        let ghost all = scopes_view(self.scopes@);
        let mut k: usize = self.scopes.len();
        assert(all.take(k as int) =~= all);
        while k > 0
            invariant
                k <= self.scopes@.len(),
                all == scopes_view(self.scopes@),
                resolve_scopes(all, name@) == resolve_scopes(all.take(k as int), name@),
            decreases k,
        {
            let scope = &self.scopes[k - 1];
            let ghost m = scope_view(scope@);
            assert(all[k - 1] == m);
            let mut i: usize = 0;
            while i < scope.len()
                invariant
                    i <= scope@.len(),
                    1 <= k <= self.scopes@.len(),
                    m == scope_view(scope@),
                    all[k - 1] == m,
                    all == scopes_view(self.scopes@),
                    resolve_scopes(all, name@) == resolve_scopes(all.take(k as int), name@),
                    forall|j: int| 0 <= j < i ==> #[trigger] m[j].0 != name@,
                decreases scope@.len() - i,
            {
                if text_eq(&scope[i].0, name.as_str()) {
                    proof {
                        lemma_assoc(m, name@, Loc::Local(0), i as int);
                        assert(all[k - 1] == m);
                        assert(all.take(k as int).last() == m);
                    }
                    let loc = match &scope[i].1 {
                        VarLocation::Local(x) => VarLocation::Local(*x),
                        VarLocation::Global(n) => VarLocation::Global(n.clone()),
                        VarLocation::Function(o) => VarLocation::Function(*o),
                    };
                    return Ok(loc);
                }
                i += 1;
            }
            proof {
                lemma_assoc(m, name@, Loc::Local(0), i as int);
                assert(all[k - 1] == m);
                assert(all.take(k as int).last() == m);
                assert(all.take(k as int).drop_last() =~= all.take(k - 1));
            }
            k -= 1;
        }
        proof {
            assert(all.take(0) =~= Seq::<Seq<(Seq<char>, Loc)>>::empty());
            assert(resolve_scopes(all, name@) is None);
            assert(self.st().scopes == all);
        }
        let ghost fs = functions_view(self.function_table@);
        let mut i: usize = 0;
        while i < self.function_table.len()
            invariant
                i <= self.function_table@.len(),
                fs == functions_view(self.function_table@),
                resolve_scopes(self.st().scopes, name@) is None,
                forall|j: int| 0 <= j < i ==> #[trigger] fs[j].0 != name@,
            decreases self.function_table@.len() - i,
        {
            if text_eq(&self.function_table[i].0, name.as_str()) {
                proof {
                    lemma_assoc(fs, name@, 0usize, i as int);
                    assert(self.st().functions == fs);
                    assert(lookup(fs, name@) == Some(self.function_table@[i as int].1));
                }
                return Ok(VarLocation::Function(self.function_table[i].1));
            }
            i += 1;
        }
        proof {
            lemma_assoc(fs, name@, 0usize, i as int);
        }
        Err(CompileStop::Error(CompileError::UndefinedVariable(name.clone())))
    }

    /// Patch the jump at `at` to land on `target`; a target past
    /// `isize::MAX` aborts and leaves the code as it was.
    fn patch(&mut self, at: usize, target: usize) -> (r: Result<(), CompileStop>)
        requires
            at < old(self).st().code.len(),
            is_jump(old(self).st().code[at as int]),
            at <= target,
        ensures
            match patch(old(self).st(), at as int, target as int) {
                Some(s) => r is Ok && final(self).st() == s,
                None => r == Err::<(), CompileStop>(CompileStop::Abort) && final(self).st() == old(self).st(),
            },
            final(self).wf() == old(self).wf(),
            final(self).chunk_name() == old(self).chunk_name(),
            final(self).st().code.len() == old(self).st().code.len(),
            forall|i: int| 0 <= i < final(self).st().code.len() && i != at ==> #[trigger] final(self).st().code[i] == old(self).st().code[i],
    {
        if target > isize::MAX as usize {
            return Err(CompileStop::Abort);
        }
        patch_jump(&mut self.instructions, at, target);
        assert(self.st() =~= patch(old(self).st(), at as int, target as int)->Some_0);
        Ok(())
    }

    /// A jump back to `start`; past `isize::MAX` instructions the compiler
    /// aborts and emits nothing.
    fn jump_back(&mut self, start: usize) -> (r: Result<(), CompileStop>)
        ensures
            match jump_back(old(self).st(), start as int) {
                Some(s) => r is Ok && final(self).st() == s,
                None => r == Err::<(), CompileStop>(CompileStop::Abort) && final(self).st() == old(self).st(),
            },
            final(self).wf() == old(self).wf(),
            final(self).chunk_name() == old(self).chunk_name(),
            code_kept(old(self).st().code, final(self).st().code),
    {
        let here = self.instructions.len();
        if here > isize::MAX as usize {
            return Err(CompileStop::Abort);
        }
        let offset = #[verifier::truncate] ((start as i128 - here as i128 - 1) as i16);
        self.emit(Instruction::Jump { offset });
        Ok(())
    }
}


/// A list result agrees with its outcome.
pub open spec fn agrees_regs(r: Result<Vec<u8>, CompileStop>, o: Out<Seq<u8>>) -> bool {
    match r {
        Ok(x) => o.1 == Ok::<Seq<u8>, Stop>(x@),
        Err(e) => o.1 == Err::<Seq<u8>, Stop>(e@),
    }
}

/// A compilation step from `old` to `new` with result `r` follows `o`.
pub open spec fn step<T>(old: BytecodeCompiler, new: BytecodeCompiler, r: Result<T, CompileStop>, o: Out<T>) -> bool {
    &&& new.wf()
    &&& new.chunk_name() == old.chunk_name()
    &&& new.st() == o.0
    &&& agrees(r, o)
    &&& code_kept(old.st().code, new.st().code)
    &&& old.st().scopes.len() <= new.st().scopes.len()
}

impl BytecodeCompiler {
    /// Load a constant into a new register.
    fn load_constant(&mut self, c: ConstantValue) -> (r: Result<u8, CompileStop>)
        requires
            old(self).wf(),
        ensures
            step(*old(self), *final(self), r, load_const(old(self).st(), c@)),
    {
        let reg = match self.take_register() {
            Err(e) => return Err(e),
            Ok(x) => x,
        };
        let id = self.add_constant(c);
        self.emit(Instruction::LoadConst { dest: reg, constant_id: id });
        Ok(reg)
    }

    /// Compile an expression (see `expr_code`).
    #[verifier::spinoff_prover]
    #[verifier::rlimit(60)]
    fn compile_expr(&mut self, n: &AstNode) -> (r: Result<u8, CompileStop>)
        requires
            old(self).wf(),
        ensures
            step(*old(self), *final(self), r, expr_code(old(self).st(), *n)),
        decreases n, 2nat,
    {
        match n {
            AstNode::Number { value, .. } => self.load_constant(ConstantValue::Number(value.clone())),
            AstNode::Text { value, .. } => self.load_constant(ConstantValue::Text(value.clone())),
            AstNode::Truth { value, .. } => {
                let reg = match self.take_register() {
                    Err(e) => return Err(e),
                    Ok(x) => x,
                };
                self.emit(Instruction::LoadTruth { dest: reg, value: *value });
                Ok(reg)
            },
            AstNode::Nothing { .. } => {
                let reg = match self.take_register() {
                    Err(e) => return Err(e),
                    Ok(x) => x,
                };
                self.emit(Instruction::LoadNothing { dest: reg });
                Ok(reg)
            },
            AstNode::Ident { name, .. } => {
                let reg = match self.take_register() {
                    Err(e) => return Err(e),
                    Ok(x) => x,
                };
                match self.resolve_variable(name) {
                    Err(e) => Err(e),
                    Ok(VarLocation::Local(index)) => {
                        self.emit(Instruction::LoadLocal { dest: reg, local_index: index });
                        Ok(reg)
                    },
                    Ok(VarLocation::Global(_)) => {
                        let id = self.add_text(name);
                        self.emit(Instruction::LoadGlobal { dest: reg, name_id: id });
                        Ok(reg)
                    },
                    Ok(VarLocation::Function(offset)) => {
                        let id = self.add_constant(ConstantValue::Number(usize_to_string(offset)));
                        self.emit(Instruction::LoadConst { dest: reg, constant_id: id });
                        Ok(reg)
                    },
                }
            },
            AstNode::BinaryOp { left, op, right, .. } => {
                let l = match self.compile_expr(&**left) {
                    Err(e) => return Err(e),
                    Ok(x) => x,
                };
                let r = match self.compile_expr(&**right) {
                    Err(e) => return Err(e),
                    Ok(x) => x,
                };
                let d = match self.take_register() {
                    Err(e) => return Err(e),
                    Ok(x) => x,
                };
                self.emit(binary_op_instruction(*op, d, l, r));
                self.free_register();
                self.free_register();
                Ok(d)
            },
            AstNode::UnaryOp { op, operand, .. } => self.compile_wrap(&**operand, Wrapper::Unary(*op)),
            AstNode::List { elements, .. } => {
                let start = self.next_register;
                let regs = match self.compile_exprs(elements) {
                    Err(e) => return Err(e),
                    Ok(x) => x,
                };
                let d = match self.take_register() {
                    Err(e) => return Err(e),
                    Ok(x) => x,
                };
                self.emit(Instruction::CreateList { dest: d, start, count: #[verifier::truncate] (regs.len() as u8) });
                self.free_registers(regs.len());
                Ok(d)
            },
            AstNode::MapLiteral { entries, .. } => {
                let d = match self.take_register() {
                    Err(e) => return Err(e),
                    Ok(x) => x,
                };
                self.emit(Instruction::CreateMap { dest: d });
                let r = self.compile_map_fields(d, entries);
                match r {
                    Err(e) => Err(e),
                    Ok(()) => Ok(d),
                }
            },
            AstNode::IndexAccess { object, index, .. } => {
                let l = match self.compile_expr(&**object) {
                    Err(e) => return Err(e),
                    Ok(x) => x,
                };
                let i = match self.compile_expr(&**index) {
                    Err(e) => return Err(e),
                    Ok(x) => x,
                };
                let d = match self.take_register() {
                    Err(e) => return Err(e),
                    Ok(x) => x,
                };
                self.emit(Instruction::GetIndex { dest: d, list: l, index: i });
                self.free_register();
                self.free_register();
                Ok(d)
            },
            AstNode::FieldAccess { object, field, .. } => {
                let m = match self.compile_expr(&**object) {
                    Err(e) => return Err(e),
                    Ok(x) => x,
                };
                let id = self.add_text(field);
                let d = match self.take_register() {
                    Err(e) => return Err(e),
                    Ok(x) => x,
                };
                self.emit(Instruction::GetField { dest: d, map: m, field_id: id });
                self.free_register();
                Ok(d)
            },
            AstNode::Call { callee, args, .. } => {
                let f = match self.compile_expr(&**callee) {
                    Err(e) => return Err(e),
                    Ok(x) => x,
                };
                let arg_start = self.next_register;
                let regs = match self.compile_exprs(args) {
                    Err(e) => return Err(e),
                    Ok(x) => x,
                };
                let d = match self.take_register() {
                    Err(e) => return Err(e),
                    Ok(x) => x,
                };
                self.emit(Instruction::Call { dest: d, func: f, arg_start, arg_count: #[verifier::truncate] (regs.len() as u8) });
                self.free_registers(regs.len());
                self.free_register();
                Ok(d)
            },
            AstNode::Triumph { value, .. } => { let r = self.compile_wrap(&**value, Wrapper::Triumph); r },
            AstNode::Mishap { value, .. } => self.compile_wrap(&**value, Wrapper::Mishap),
            AstNode::Present { value, .. } => self.compile_wrap(&**value, Wrapper::Present),
            AstNode::Absent { .. } => {
                let d = match self.take_register() {
                    Err(e) => return Err(e),
                    Ok(x) => x,
                };
                self.emit(Instruction::CreateAbsent { dest: d });
                Ok(d)
            },
            AstNode::StructLiteral { struct_name, fields, .. } => {
                let id = self.add_text(struct_name);
                let start = match self.take_register() {
                    Err(e) => return Err(e),
                    Ok(x) => x,
                };
                let regs = match self.compile_values(fields) {
                    Err(e) => return Err(e),
                    Ok(x) => x,
                };
                let d = match self.take_register() {
                    Err(e) => return Err(e),
                    Ok(x) => x,
                };
                self.emit(
                    Instruction::CreateStruct {
                        dest: d,
                        struct_def_id: id,
                        field_start: start,
                        field_count: #[verifier::truncate] (fields.len() as u8),
                    },
                );
                self.free_register();
                self.free_registers(regs.len());
                Ok(d)
            },
            AstNode::ModuleAccess { module, member, .. } => {
                let d = match self.take_register() {
                    Err(e) => return Err(e),
                    Ok(x) => x,
                };
                let mut qualified = module.clone();
                push_str(&mut qualified, ".");
                push_str(&mut qualified, member.as_str());
                let id = self.add_text(&qualified);
                self.emit(Instruction::LoadGlobal { dest: d, name_id: id });
                Ok(d)
            },
            _ => Err(unsupported_feature(node_debug_text(n))),
        }
    }

    /// Compile a one-operand construction (see `wrap_code`).
    fn compile_wrap(&mut self, value: &AstNode, w: Wrapper) -> (r: Result<u8, CompileStop>)
        requires
            old(self).wf(),
        ensures
            step(*old(self), *final(self), r, wrap_code(old(self).st(), *value, w)),
        decreases value, 3nat,
    {
        let v = match self.compile_expr(value) {
            Err(e) => return Err(e),
            Ok(x) => x,
        };
        let d = match self.take_register() {
            Err(e) => return Err(e),
            Ok(x) => x,
        };
        self.emit(wrapper_op_instruction(w, d, v));
        self.free_register();
        Ok(d)
    }

    /// Compile expressions in order (see `exprs_code`).
    fn compile_exprs(&mut self, ns: &Vec<AstNode>) -> (r: Result<Vec<u8>, CompileStop>)
        requires
            old(self).wf(),
        ensures
            final(self).wf(),
            final(self).chunk_name() == old(self).chunk_name(),
            final(self).st() == exprs_code(old(self).st(), ns@, Seq::empty()).0,
            agrees_regs(r, exprs_code(old(self).st(), ns@, Seq::empty())),
            code_kept(old(self).st().code, final(self).st().code),
            old(self).st().scopes.len() <= final(self).st().scopes.len(),
        decreases ns, 0nat,
    {
        let mut regs: Vec<u8> = Vec::new();
        let mut i: usize = 0;
        proof {
            assert(ns@.skip(0) =~= ns@);
        }
        while i < ns.len()
            invariant
                self.wf(),
                self.chunk_name() == old(self).chunk_name(),
                i <= ns@.len(),
                exprs_code(old(self).st(), ns@, Seq::empty()) == exprs_code(self.st(), ns@.skip(i as int), regs@),
                code_kept(old(self).st().code, self.st().code),
                old(self).st().scopes.len() <= self.st().scopes.len(),
            decreases ns@.len() - i,
        {
            proof {
                assert(ns@.skip(i as int)[0] == ns@[i as int]);
                assert(ns@.skip(i as int).drop_first() =~= ns@.skip(i + 1));
            }
            let r = match self.compile_expr(&ns[i]) {
                Err(e) => return Err(e),
                Ok(x) => x,
            };
            regs.push(r);
            i += 1;
        }
        proof {
            assert(ns@.skip(i as int) =~= Seq::<AstNode>::empty());
        }
        Ok(regs)
    }

    /// Compile the values of named fields in order (see `values_code`).
    fn compile_values(&mut self, fs: &Vec<(String, AstNode)>) -> (r: Result<Vec<u8>, CompileStop>)
        requires
            old(self).wf(),
        ensures
            final(self).wf(),
            final(self).chunk_name() == old(self).chunk_name(),
            final(self).st() == values_code(old(self).st(), fs@, Seq::empty()).0,
            agrees_regs(r, values_code(old(self).st(), fs@, Seq::empty())),
            code_kept(old(self).st().code, final(self).st().code),
            old(self).st().scopes.len() <= final(self).st().scopes.len(),
        decreases fs, 0nat,
    {
        let mut regs: Vec<u8> = Vec::new();
        let mut i: usize = 0;
        proof {
            assert(fs@.skip(0) =~= fs@);
        }
        while i < fs.len()
            invariant
                self.wf(),
                self.chunk_name() == old(self).chunk_name(),
                i <= fs@.len(),
                values_code(old(self).st(), fs@, Seq::empty()) == values_code(self.st(), fs@.skip(i as int), regs@),
                code_kept(old(self).st().code, self.st().code),
                old(self).st().scopes.len() <= self.st().scopes.len(),
            decreases fs@.len() - i,
        {
            proof {
                assert(fs@.skip(i as int)[0] == fs@[i as int]);
                assert(fs@.skip(i as int).drop_first() =~= fs@.skip(i + 1));
            }
            let r = match self.compile_expr(&fs[i].1) {
                Err(e) => return Err(e),
                Ok(x) => x,
            };
            regs.push(r);
            i += 1;
        }
        proof {
            assert(fs@.skip(i as int) =~= Seq::<(String, AstNode)>::empty());
        }
        Ok(regs)
    }

    /// Set each entry of a map literal (see `map_fields_code`).
    fn compile_map_fields(&mut self, map: u8, fs: &Vec<(String, AstNode)>) -> (r: Result<(), CompileStop>)
        requires
            old(self).wf(),
        ensures
            step(*old(self), *final(self), r, map_fields_code(old(self).st(), map, fs@)),
        decreases fs, 0nat,
    {
        let mut i: usize = 0;
        proof {
            assert(fs@.skip(0) =~= fs@);
        }
        while i < fs.len()
            invariant
                self.wf(),
                self.chunk_name() == old(self).chunk_name(),
                i <= fs@.len(),
                map_fields_code(old(self).st(), map, fs@) == map_fields_code(self.st(), map, fs@.skip(i as int)),
                code_kept(old(self).st().code, self.st().code),
                old(self).st().scopes.len() <= self.st().scopes.len(),
            decreases fs@.len() - i,
        {
            proof {
                assert(fs@.skip(i as int)[0] == fs@[i as int]);
                assert(fs@.skip(i as int).drop_first() =~= fs@.skip(i + 1));
            }
            let v = match self.compile_expr(&fs[i].1) {
                Err(e) => return Err(e),
                Ok(x) => x,
            };
            let id = self.add_text(&fs[i].0);
            self.emit(Instruction::SetField { map, field_id: id, value: v });
            self.free_register();
            i += 1;
        }
        proof {
            assert(fs@.skip(i as int) =~= Seq::<(String, AstNode)>::empty());
        }
        Ok(())
    }
}

/// The instruction of a binary operator (see `binary_instruction`).
fn binary_op_instruction(op: BinaryOperator, dest: u8, left: u8, right: u8) -> (i: Instruction)
    ensures
        i == binary_instruction(op, dest, left, right),
{
    match op {
        BinaryOperator::Add => Instruction::AddNum { dest, left, right },
        BinaryOperator::Sub => Instruction::SubNum { dest, left, right },
        BinaryOperator::Mul => Instruction::MulNum { dest, left, right },
        BinaryOperator::Div => Instruction::DivNum { dest, left, right },
        BinaryOperator::Mod => Instruction::ModNum { dest, left, right },
        BinaryOperator::Equal => Instruction::Eq { dest, left, right },
        BinaryOperator::NotEqual => Instruction::Ne { dest, left, right },
        BinaryOperator::Greater => Instruction::Gt { dest, left, right },
        BinaryOperator::Less => Instruction::Lt { dest, left, right },
        BinaryOperator::GreaterEq => Instruction::Ge { dest, left, right },
        BinaryOperator::LessEq => Instruction::Le { dest, left, right },
        BinaryOperator::And => Instruction::And { dest, left, right },
        BinaryOperator::Or => Instruction::Or { dest, left, right },
    }
}

/// The instruction of a one-operand construction (see
/// `wrapper_instruction`).
fn wrapper_op_instruction(w: Wrapper, dest: u8, value: u8) -> (i: Instruction)
    ensures
        i == wrapper_instruction(w, dest, value),
{
    match w {
        Wrapper::Unary(UnaryOperator::Not) => Instruction::Not { dest, src: value },
        Wrapper::Unary(UnaryOperator::Negate) => Instruction::NegNum { dest, src: value },
        Wrapper::Triumph => Instruction::CreateTriumph { dest, value },
        Wrapper::Mishap => Instruction::CreateMishap { dest, value },
        Wrapper::Present => Instruction::CreatePresent { dest, value },
    }
}


/// Patching a jump after `a`'s code keeps `a`'s code.
proof fn lemma_kept_patch(a: Seq<Instruction>, b: Seq<Instruction>, c: Seq<Instruction>, at: int)
    requires
        code_kept(a, b),
        c.len() == b.len(),
        forall|i: int| 0 <= i < c.len() && i != at ==> #[trigger] c[i] == b[i],
        a.len() <= at,
    ensures
        code_kept(a, c),
{
    assert forall|i: int| 0 <= i < a.len() implies #[trigger] c[i] == a[i] by {
        assert(c[i] == b[i]);
    }
}

/// An optional-register result agrees with its outcome.
pub open spec fn agrees_jumps(r: Result<Vec<usize>, CompileStop>, o: Out<Seq<usize>>) -> bool {
    match r {
        Ok(x) => o.1 == Ok::<Seq<usize>, Stop>(x@),
        Err(e) => o.1 == Err::<Seq<usize>, Stop>(e@),
    }
}

/// The jumps at `jumps` lie in `code` from `start` on.
pub open spec fn jumps_in(code: Seq<Instruction>, jumps: Seq<usize>, start: int) -> bool {
    forall|k: int| 0 <= k < jumps.len() ==> start <= #[trigger] jumps[k] < code.len() && is_jump(code[jumps[k] as int])
}

/// Whether a variant name is the given one.
fn variant_test_instruction(variant: &String, dest: u8, value: u8) -> (r: Option<Instruction>)
    ensures
        r == variant_test(variant@, dest, value),
{
    proof {
        reveal_strlit("Triumph");
        reveal_strlit("Mishap");
        reveal_strlit("Present");
        reveal_strlit("Absent");
    }
    if text_eq(variant, "Triumph") {
        Some(Instruction::IsTriumph { dest, value })
    } else if text_eq(variant, "Mishap") {
        Some(Instruction::IsMishap { dest, value })
    } else if text_eq(variant, "Present") {
        Some(Instruction::IsPresent { dest, value })
    } else if text_eq(variant, "Absent") {
        Some(Instruction::IsAbsent { dest, value })
    } else {
        None
    }
}

/// `message` followed by `tail`.
fn message_with(message: &str, tail: &str) -> (r: String)
    ensures
        r@ == message@ + tail@,
{
    let mut r = String::from_str(message);
    push_str(&mut r, tail);
    r
}

impl BytecodeCompiler {
    /// Record a compiled function's entry point.
    fn record_function(&mut self, name: &String, entry: usize)
        ensures
            final(self).st() == (CState { functions: assoc_insert(old(self).st().functions, name@, entry), ..old(self).st() }),
            final(self).wf() == old(self).wf(),
            final(self).chunk_name() == old(self).chunk_name(),
    {
        let ghost m = functions_view(self.function_table@);
        let mut i: usize = 0;
        while i < self.function_table.len()
            invariant
                i <= self.function_table@.len(),
                m == functions_view(self.function_table@),
                forall|j: int| 0 <= j < i ==> #[trigger] m[j].0 != name@,
            ensures
                i <= self.function_table@.len(),
                forall|j: int| 0 <= j < i ==> #[trigger] m[j].0 != name@,
                i < self.function_table@.len() ==> m[i as int].0 == name@,
            decreases self.function_table@.len() - i,
        {
            if text_eq(&self.function_table[i].0, name.as_str()) {
                break;
            }
            i += 1;
        }
        proof {
            lemma_assoc(m, name@, entry, i as int);
        }
        if i < self.function_table.len() {
            self.function_table.set(i, (name.clone(), entry));
            assert(functions_view(self.function_table@) =~= m.update(i as int, (name@, entry)));
        } else {
            self.function_table.push((name.clone(), entry));
            assert(functions_view(self.function_table@) =~= m.push((name@, entry)));
        }
        assert(self.st() =~= (CState { functions: assoc_insert(old(self).st().functions, name@, entry), ..old(self).st() }));
    }

    /// Open a new innermost scope.
    fn push_scope(&mut self)
        requires
            old(self).wf(),
        ensures
            final(self).st() == (CState { scopes: old(self).st().scopes.push(Seq::empty()), ..old(self).st() }),
            final(self).wf(),
            final(self).chunk_name() == old(self).chunk_name(),
    {
        let fresh: Vec<(String, VarLocation)> = Vec::new();
        assert(scope_view(fresh@) =~= Seq::<(Seq<char>, Loc)>::empty());
        self.scopes.push(fresh);
        assert(scopes_view(self.scopes@) =~= scopes_view(old(self).scopes@).push(Seq::empty()));
        assert(self.st() =~= (CState { scopes: old(self).st().scopes.push(Seq::empty()), ..old(self).st() }));
    }

    /// Close the innermost scope.
    fn pop_scope(&mut self)
        requires
            old(self).wf(),
            old(self).st().scopes.len() >= 2,
        ensures
            final(self).st() == (CState { scopes: old(self).st().scopes.drop_last(), ..old(self).st() }),
            final(self).wf(),
            final(self).chunk_name() == old(self).chunk_name(),
    {
        let _ = self.scopes.pop();
        assert(scopes_view(self.scopes@) =~= scopes_view(old(self).scopes@).drop_last());
        assert(self.st() =~= (CState { scopes: old(self).st().scopes.drop_last(), ..old(self).st() }));
    }

    /// Compile statements in order (see `stmts_code`).
    fn compile_stmts(&mut self, ns: &Vec<AstNode>) -> (r: Result<Option<u8>, CompileStop>)
        requires
            old(self).wf(),
        ensures
            step(*old(self), *final(self), r, stmts_code(old(self).st(), ns@, None)),
        decreases ns, 0nat,
    {
        let mut last: Option<u8> = None;
        let mut i: usize = 0;
        proof {
            assert(ns@.skip(0) =~= ns@);
        }
        while i < ns.len()
            invariant
                self.wf(),
                self.chunk_name() == old(self).chunk_name(),
                i <= ns@.len(),
                stmts_code(old(self).st(), ns@, None) == stmts_code(self.st(), ns@.skip(i as int), last),
                code_kept(old(self).st().code, self.st().code),
                old(self).st().scopes.len() <= self.st().scopes.len(),
            decreases ns@.len() - i,
        {
            proof {
                assert(ns@.skip(i as int)[0] == ns@[i as int]);
                assert(ns@.skip(i as int).drop_first() =~= ns@.skip(i + 1));
            }
            last = match self.compile_stmt(&ns[i]) {
                Err(e) => return Err(e),
                Ok(x) => x,
            };
            i += 1;
        }
        proof {
            assert(ns@.skip(i as int) =~= Seq::<AstNode>::empty());
        }
        Ok(last)
    }

    /// Compile a binding (see `bind_code`).
    fn compile_bind(&mut self, name: &String, value: &AstNode) -> (r: Result<Option<u8>, CompileStop>)
        requires
            old(self).wf(),
        ensures
            step(*old(self), *final(self), r, bind_code(old(self).st(), name@, *value)),
    {
        let v = match self.compile_expr(value) {
            Err(e) => return Err(e),
            Ok(x) => x,
        };
        if self.scopes.len() == 1 {
            let id = self.add_text(name);
            self.emit(Instruction::DefineGlobal { name_id: id, src: v });
            self.set_current(name, VarLocation::Global(name.clone()));
            self.free_register();
        } else {
            let k = match self.new_local() {
                    Err(e) => return Err(e),
                    Ok(x) => x,
                };
            self.emit(Instruction::StoreLocal { local_index: k, src: v });
            self.set_current(name, VarLocation::Local(k));
            self.free_register();
        }
        Ok(None)
    }

    /// Compile an assignment (see `assign_code`).
    fn compile_assign(&mut self, target: &AstNode, value: &AstNode) -> (r: Result<Option<u8>, CompileStop>)
        requires
            old(self).wf(),
        ensures
            step(*old(self), *final(self), r, assign_code(old(self).st(), *target, *value)),
    {
        let v = match self.compile_expr(value) {
            Err(e) => return Err(e),
            Ok(x) => x,
        };
        match target {
            AstNode::Ident { name, .. } => match self.resolve_variable(name) {
                Err(e) => Err(e),
                Ok(VarLocation::Local(index)) => {
                    self.emit(Instruction::StoreLocal { local_index: index, src: v });
                    self.free_register();
                    Ok(None)
                },
                Ok(VarLocation::Global(_)) => {
                    let id = self.add_text(name);
                    self.emit(Instruction::StoreGlobal { name_id: id, src: v });
                    self.free_register();
                    Ok(None)
                },
                Ok(VarLocation::Function(_)) => {
                    let mut m = message_with("Cannot assign to function '", name.as_str());
                    push_str(&mut m, "'");
                    Err(unsupported_feature(m))
                },
            },
            _ => {
                let text = node_debug_text(target);
                Err(
                    unsupported_feature(
                        message_with("Assignment target not supported in bytecode compiler: ", text.as_str()),
                    ),
                )
            },
        }
    }

    /// Bind parameters to new locals (see `params_code`).
    fn compile_params(&mut self, ps: &Vec<Parameter>) -> (r: Result<(), CompileStop>)
        requires
            old(self).wf(),
        ensures
            step(*old(self), *final(self), r, params_code(old(self).st(), ps@)),
    {
        let mut i: usize = 0;
        proof {
            assert(ps@.skip(0) =~= ps@);
        }
        while i < ps.len()
            invariant
                self.wf(),
                self.chunk_name() == old(self).chunk_name(),
                i <= ps@.len(),
                params_code(old(self).st(), ps@) == params_code(self.st(), ps@.skip(i as int)),
                code_kept(old(self).st().code, self.st().code),
                old(self).st().scopes.len() <= self.st().scopes.len(),
            decreases ps@.len() - i,
        {
            proof {
                assert(ps@.skip(i as int)[0] == ps@[i as int]);
                assert(ps@.skip(i as int).drop_first() =~= ps@.skip(i + 1));
            }
            let k = match self.new_local() {
                    Err(e) => return Err(e),
                    Ok(x) => x,
                };
            self.set_current(&ps[i].name, VarLocation::Local(k));
            i += 1;
        }
        proof {
            assert(ps@.skip(i as int) =~= Seq::<Parameter>::empty());
        }
        Ok(())
    }

    /// Compile `yield` (see `yield_code`).
    fn compile_yield(&mut self, value: &AstNode) -> (r: Result<Option<u8>, CompileStop>)
        requires
            old(self).wf(),
        ensures
            step(*old(self), *final(self), r, yield_code(old(self).st(), *value)),
    {
        let tail = match value {
            AstNode::Call { callee, .. } => match &**callee {
                AstNode::Ident { name, .. } => match &self.current_function {
                    Some(current) => text_eq(current, name.as_str()),
                    None => false,
                },
                _ => false,
            },
            _ => false,
        };
        if tail {
            match value {
                AstNode::Call { args, .. } => {
                    let regs = match self.compile_exprs(args) {
                        Err(e) => return Err(e),
                        Ok(x) => x,
                    };
                    let ghost stored = self.st();
                    let mut i: usize = 0;
                    while i < regs.len()
                        invariant
                            self.wf(),
                            self.chunk_name() == old(self).chunk_name(),
                            i <= regs@.len(),
                            store_args(stored, regs@, 0) == store_args(self.st(), regs@, i as int),
                            code_kept(old(self).st().code, self.st().code),
                            old(self).st().scopes.len() <= self.st().scopes.len(),
                        decreases regs@.len() - i,
                    {
                        self.emit(Instruction::StoreLocal { local_index: #[verifier::truncate] (i as u8), src: regs[i] });
                        self.free_register();
                        i += 1;
                    }
                    match self.function_entry {
                        Some(entry) => {
                            match self.jump_back(entry) {
                                Err(e) => return Err(e),
                                Ok(()) => {},
                            }
                        },
                        None => {},
                    }
                    Ok(None)
                },
                _ => Ok(None),
            }
        } else {
            let r = match self.compile_expr(value) {
                Err(e) => return Err(e),
                Ok(x) => x,
            };
            self.emit(Instruction::Return { value: r });
            self.free_register();
            Ok(None)
        }
    }
}


impl BytecodeCompiler {
    /// Patch each jump of `jumps` to land on `target` (see `patch_all`).
    fn patch_jumps(&mut self, jumps: &Vec<usize>, target: usize) -> (r: Result<(), CompileStop>)
        requires
            old(self).wf(),
            jumps_in(old(self).st().code, jumps@, 0),
            forall|k: int| 0 <= k < jumps@.len() ==> #[trigger] jumps@[k] <= target,
        ensures
            match patch_all(old(self).st(), jumps@, target as int) {
                Some(s) => r is Ok && final(self).st() == s,
                None => r == Err::<(), CompileStop>(CompileStop::Abort) && final(self).st() == old(self).st(),
            },
            final(self).st().scopes == old(self).st().scopes,
            final(self).wf(),
            final(self).chunk_name() == old(self).chunk_name(),
            final(self).st().code.len() == old(self).st().code.len(),
            forall|i: int| 0 <= i < final(self).st().code.len() && !jumps@.contains(i as usize)
                ==> #[trigger] final(self).st().code[i] == old(self).st().code[i],
    {
        if jumps.len() > 0 && target > isize::MAX as usize {
            return Err(CompileStop::Abort);
        }
        let mut i: usize = 0;
        proof {
            assert(jumps@.skip(0) =~= jumps@);
        }
        while i < jumps.len()
            invariant
                self.wf(),
                self.chunk_name() == old(self).chunk_name(),
                i <= jumps@.len(),
                jumps@.len() > 0 ==> target <= isize::MAX,
                patch_all(old(self).st(), jumps@, target as int) == patch_all(self.st(), jumps@.skip(i as int), target as int),
                self.st().scopes == old(self).st().scopes,
                self.st().code.len() == old(self).st().code.len(),
                jumps_in(self.st().code, jumps@, 0),
                forall|k: int| 0 <= k < jumps@.len() ==> #[trigger] jumps@[k] <= target,
                forall|p: int| 0 <= p < self.st().code.len() && !jumps@.contains(p as usize)
                    ==> #[trigger] self.st().code[p] == old(self).st().code[p],
            decreases jumps@.len() - i,
        {
            proof {
                assert(jumps@.skip(i as int)[0] == jumps@[i as int]);
                assert(jumps@.skip(i as int).drop_first() =~= jumps@.skip(i + 1));
            }
            let at = jumps[i];
            let ghost before = self.st().code;
            match self.patch(at, target) {
                Err(e) => return Err(e),
                Ok(()) => {},
            }
            proof {
                assert(jumps@.contains(at));
                assert forall|k: int| 0 <= k < jumps@.len() implies #[trigger] is_jump(self.st().code[jumps@[k] as int]) by {
                    if jumps@[k] != at {
                        assert(self.st().code[jumps@[k] as int] == before[jumps@[k] as int]);
                    }
                }
            }
            i += 1;
        }
        proof {
            assert(jumps@.skip(i as int) =~= Seq::<usize>::empty());
        }
        Ok(())
    }

    /// Compile the pattern test of a match arm (see `arm_test`).
    fn compile_arm_test(&mut self, v: u8, p: &Pattern) -> (r: Result<Option<usize>, CompileStop>)
        requires
            old(self).wf(),
        ensures
            step(*old(self), *final(self), r, arm_test(old(self).st(), v, *p)),
            r matches Ok(Some(at)) ==> old(self).st().code.len() <= at < final(self).st().code.len() && is_jump(
                final(self).st().code[at as int],
            ),
    {
        match p {
            Pattern::Literal(lit) => {
                let l = match self.compile_expr(lit) {
                    Err(e) => return Err(e),
                    Ok(x) => x,
                };
                let c = match self.take_register() {
                    Err(e) => return Err(e),
                    Ok(x) => x,
                };
                self.emit(Instruction::Eq { dest: c, left: v, right: l });
                self.free_register();
                self.emit(Instruction::JumpIfFalse { cond: c, offset: 0 });
                let at = self.instructions.len() - 1;
                self.free_register();
                Ok(Some(at))
            },
            Pattern::Ident(var) => {
                let k = match self.new_local() {
                    Err(e) => return Err(e),
                    Ok(x) => x,
                };
                self.emit(Instruction::StoreLocal { local_index: k, src: v });
                self.set_current(var, VarLocation::Local(k));
                Ok(None)
            },
            Pattern::Wildcard => Ok(None),
            Pattern::Enum { variant, inner } => {
                let c = match self.take_register() {
                    Err(e) => return Err(e),
                    Ok(x) => x,
                };
                let test = match variant_test_instruction(variant, c, v) {
                    None => {
                        return Err(unsupported_feature(message_with("Unknown enum variant: ", variant.as_str())));
                    },
                    Some(t) => t,
                };
                self.emit(test);
                self.emit(Instruction::JumpIfFalse { cond: c, offset: 0 });
                let next = self.instructions.len() - 1;
                self.free_register();
                proof {
                    reveal_strlit("Absent");
                }
                match inner {
                    Some(ip) => if !text_eq(variant, "Absent") {
                        let ir = match self.take_register() {
                            Err(e) => return Err(e),
                            Ok(x) => x,
                        };
                        self.emit(Instruction::ExtractInner { dest: ir, value: v });
                        match &**ip {
                            Pattern::Ident(var) => {
                                let k = match self.new_local() {
                    Err(e) => return Err(e),
                    Ok(x) => x,
                };
                                self.emit(Instruction::StoreLocal { local_index: k, src: ir });
                                self.set_current(var, VarLocation::Local(k));
                                self.free_register();
                                Ok(Some(next))
                            },
                            Pattern::Wildcard => {
                                self.free_register();
                                Ok(Some(next))
                            },
                            _ => Err(
                                unsupported_feature(
                                    String::from_str("Complex nested enum patterns not yet supported"),
                                ),
                            ),
                        }
                    } else {
                        Ok(Some(next))
                    },
                    None => Ok(Some(next)),
                }
            },
        }
    }

    /// Compile match arms (see `arms_code`).
    fn compile_arms(&mut self, v: u8, arms: &Vec<MatchArm>) -> (r: Result<Vec<usize>, CompileStop>)
        requires
            old(self).wf(),
        ensures
            final(self).wf(),
            final(self).chunk_name() == old(self).chunk_name(),
            final(self).st() == arms_code(old(self).st(), v, arms@, Seq::empty()).0,
            agrees_jumps(r, arms_code(old(self).st(), v, arms@, Seq::empty())),
            code_kept(old(self).st().code, final(self).st().code),
            old(self).st().scopes.len() <= final(self).st().scopes.len(),
            r matches Ok(js) ==> jumps_in(final(self).st().code, js@, old(self).st().code.len() as int),
        decreases arms, 0nat,
    {
        let mut jumps: Vec<usize> = Vec::new();
        let mut i: usize = 0;
        proof {
            assert(arms@.skip(0) =~= arms@);
        }
        while i < arms.len()
            invariant
                self.wf(),
                self.chunk_name() == old(self).chunk_name(),
                i <= arms@.len(),
                arms_code(old(self).st(), v, arms@, Seq::empty()) == arms_code(self.st(), v, arms@.skip(i as int), jumps@),
                code_kept(old(self).st().code, self.st().code),
                old(self).st().scopes.len() <= self.st().scopes.len(),
                jumps_in(self.st().code, jumps@, old(self).st().code.len() as int),
            decreases arms@.len() - i,
        {
            proof {
                assert(arms@.skip(i as int)[0] == arms@[i as int]);
                assert(arms@.skip(i as int).drop_first() =~= arms@.skip(i + 1));
            }
            let ghost here = self.st();
            let locals = self.local_count;
            self.push_scope();
            let next = match self.compile_arm_test(v, &arms[i].pattern) {
                Err(e) => return Err(e),
                Ok(x) => x,
            };
            match self.compile_stmts(&arms[i].body) {
                Err(e) => return Err(e),
                Ok(_) => {},
            }
            let j = self.instructions.len();
            self.emit(Instruction::Jump { offset: 0 });
            match next {
                Some(at) => {
                    let ghost before = self.st().code;
                    let target = self.instructions.len();
                    match self.patch(at, target) {
                        Err(e) => return Err(e),
                        Ok(()) => {},
                    }
                    proof {
                        lemma_kept_patch(here.code, before, self.st().code, at as int);
                    }
                },
                None => {},
            }
            self.pop_scope();
            self.local_count = locals;
            proof {
                assert(self.st() =~= (CState { locals: here.locals, ..self.st() }));
            }
            jumps.push(j);
            i += 1;
        }
        proof {
            assert(arms@.skip(i as int) =~= Seq::<MatchArm>::empty());
        }
        Ok(jumps)
    }

    /// Compile a statement (see `stmt_code`).
    #[verifier::spinoff_prover]
    #[verifier::rlimit(80)]
    fn compile_stmt(&mut self, n: &AstNode) -> (r: Result<Option<u8>, CompileStop>)
        requires
            old(self).wf(),
        ensures
            step(*old(self), *final(self), r, stmt_code(old(self).st(), *n)),
        decreases n, 4nat,
    {
        match n {
            AstNode::BindStmt { name, value, .. } => self.compile_bind(name, &**value),
            AstNode::WeaveStmt { name, value, .. } => self.compile_bind(name, &**value),
            AstNode::SetStmt { target, value, .. } => self.compile_assign(&**target, &**value),
            AstNode::IfStmt { .. } => self.compile_if(n),
            AstNode::WhileStmt { .. } => self.compile_while(n),
            AstNode::MatchStmt { .. } => self.compile_match(n),
            AstNode::ChantDef { .. } => self.compile_chant(n),
            AstNode::FormDef { name, fields, .. } => {
                let def = self.add_constant(ConstantValue::StructDef { name: name.clone(), fields: copy_fields(fields) });
                let d = match self.take_register() {
                    Err(e) => return Err(e),
                    Ok(x) => x,
                };
                self.emit(Instruction::LoadConst { dest: d, constant_id: def });
                let id = self.add_text(name);
                self.emit(Instruction::StoreGlobal { name_id: id, src: d });
                self.free_register();
                Ok(None)
            },
            AstNode::YieldStmt { value, .. } => self.compile_yield(&**value),
            AstNode::AttemptStmt { body, .. } => {
                self.emit(Instruction::SetupTry { handler_offset: 0 });
                match self.compile_stmts(body) {
                    Err(e) => Err(e),
                    Ok(_) => {
                        // The handler entry is a `SetupTry`, not a jump: it cannot be
                        // patched, and compilation aborts here.
                        self.emit(Instruction::PopTry);
                        self.emit(Instruction::Jump { offset: 0 });
                        Err(CompileStop::Abort)
                    },
                }
            },
            AstNode::ExprStmt { expr, .. } => match self.compile_expr(&**expr) {
                Err(e) => Err(e),
                Ok(r) => Ok(Some(r)),
            },
            AstNode::ModuleDecl { name, .. } => Err(
                unsupported_feature(
                    message_with(
                        "Module declarations not yet supported in bytecode compiler (multi-file compilation required). Module: ",
                        name.as_str(),
                    ),
                ),
            ),
            AstNode::Import { module_name, path, .. } => {
                let mut m = message_with(
                    "Module imports not yet supported in bytecode compiler. Attempted to import ",
                    module_name.as_str(),
                );
                push_str(&mut m, " from ");
                push_str(&mut m, path.as_str());
                Err(unsupported_feature(m))
            },
            AstNode::Export { items, .. } => {
                let listed = texts_debug_text(items);
                Err(
                    unsupported_feature(
                        message_with(
                            "Module exports not yet supported in bytecode compiler. Attempted to export: ",
                            listed.as_str(),
                        ),
                    ),
                )
            },
            _ => match self.compile_expr(n) {
                Err(e) => Err(e),
                Ok(r) => Ok(Some(r)),
            },
        }
    }
}


/// A compiled chunk holds the compiler's code, lines and constants, its
/// name, no parameters and its local count.
pub open spec fn chunk_matches(c: CompiledChunk, s: CState, name: Seq<char>) -> bool {
    &&& c.instructions@ == s.code
    &&& c.lines@ == s.lines
    &&& consts_view(c.constants@) == s.consts
    &&& c.name@ == name
    &&& c.param_count == 0
    &&& c.local_count == s.chunk_locals
}

impl BytecodeCompiler {
    /// Compile `should ... otherwise ... end` (see `stmt_code`).
    fn compile_if(&mut self, n: &AstNode) -> (r: Result<Option<u8>, CompileStop>)
        requires
            old(self).wf(),
            n is IfStmt,
        ensures
            step(*old(self), *final(self), r, stmt_code(old(self).st(), *n)),
        decreases n, 3nat,
    {
        match n {
            AstNode::IfStmt { condition, then_branch, else_branch, .. } => {
                let ghost s0 = self.st();
                let c = match self.compile_expr(&**condition) {
                    Err(e) => return Err(e),
                    Ok(x) => x,
                };
                self.emit(Instruction::JumpIfFalse { cond: c, offset: 0 });
                let to_else = self.instructions.len() - 1;
                self.free_register();
                let ghost s2 = self.st().code;
                match self.compile_stmts(then_branch) {
                    Err(e) => return Err(e),
                    Ok(_) => {},
                }
                assert(self.st().code[to_else as int] == s2[to_else as int]);
                self.emit(Instruction::Jump { offset: 0 });
                let over_else = self.instructions.len() - 1;
                let target = self.instructions.len();
                let ghost before = self.st().code;
                match self.patch(to_else, target) {
                    Err(e) => return Err(e),
                    Ok(()) => {},
                }
                proof {
                    lemma_kept_patch(s0.code, before, self.st().code, to_else as int);
                }
                let ghost s5 = self.st().code;
                match else_branch {
                    Some(b) => match self.compile_stmts(b) {
                        Err(e) => return Err(e),
                        Ok(_) => {},
                    },
                    None => {},
                }
                assert(self.st().code[over_else as int] == s5[over_else as int]);
                let end = self.instructions.len();
                let ghost before2 = self.st().code;
                match self.patch(over_else, end) {
                    Err(e) => return Err(e),
                    Ok(()) => {},
                }
                proof {
                    lemma_kept_patch(s0.code, before2, self.st().code, over_else as int);
                }
                Ok(None)
            },
            _ => Ok(None),
        }
    }

    /// Compile `whilst ... end` (see `stmt_code`).
    fn compile_while(&mut self, n: &AstNode) -> (r: Result<Option<u8>, CompileStop>)
        requires
            old(self).wf(),
            n is WhileStmt,
        ensures
            step(*old(self), *final(self), r, stmt_code(old(self).st(), *n)),
        decreases n, 3nat,
    {
        match n {
            AstNode::WhileStmt { condition, body, .. } => {
                let ghost s0 = self.st();
                let start = self.instructions.len();
                let c = match self.compile_expr(&**condition) {
                    Err(e) => return Err(e),
                    Ok(x) => x,
                };
                self.emit(Instruction::JumpIfFalse { cond: c, offset: 0 });
                let to_end = self.instructions.len() - 1;
                self.free_register();
                let ghost s2 = self.st().code;
                match self.compile_stmts(body) {
                    Err(e) => return Err(e),
                    Ok(_) => {},
                }
                assert(self.st().code[to_end as int] == s2[to_end as int]);
                match self.jump_back(start) {
                    Err(e) => return Err(e),
                    Ok(()) => {},
                }
                let end = self.instructions.len();
                let ghost before = self.st().code;
                match self.patch(to_end, end) {
                    Err(e) => return Err(e),
                    Ok(()) => {},
                }
                proof {
                    lemma_kept_patch(s0.code, before, self.st().code, to_end as int);
                }
                Ok(None)
            },
            _ => Ok(None),
        }
    }

    /// Compile `match ... end` (see `stmt_code`).
    #[verifier::spinoff_prover]
    #[verifier::rlimit(60)]
    fn compile_match(&mut self, n: &AstNode) -> (r: Result<Option<u8>, CompileStop>)
        requires
            old(self).wf(),
            n is MatchStmt,
        ensures
            step(*old(self), *final(self), r, stmt_code(old(self).st(), *n)),
        decreases n, 3nat,
    {
        match n {
            AstNode::MatchStmt { value, arms, .. } => {
                let ghost s0 = self.st();
                let v = match self.compile_expr(&**value) {
                    Err(e) => return Err(e),
                    Ok(x) => x,
                };
                let ghost s1 = self.st();
                let jumps = match self.compile_arms(v, arms) {
                    Err(e) => return Err(e),
                    Ok(x) => x,
                };
                let end = self.instructions.len();
                let ghost before = self.st().code;
                match self.patch_jumps(&jumps, end) {
                    Err(e) => return Err(e),
                    Ok(()) => {},
                }
                proof {
                    assert forall|i: int| 0 <= i < s0.code.len() implies #[trigger] self.st().code[i] == s0.code[i] by {
                        if jumps@.contains(i as usize) {
                            let k = choose|k: int| 0 <= k < jumps@.len() && jumps@[k] == i as usize;
                            assert(s1.code.len() <= jumps@[k]);
                        }
                        assert(self.st().code[i] == before[i]);
                    }
                }
                self.free_register();
                Ok(None)
            },
            _ => Ok(None),
        }
    }

    /// Compile a function definition (see `stmt_code`).
    fn compile_chant(&mut self, n: &AstNode) -> (r: Result<Option<u8>, CompileStop>)
        requires
            old(self).wf(),
            n is ChantDef,
        ensures
            step(*old(self), *final(self), r, stmt_code(old(self).st(), *n)),
        decreases n, 3nat,
    {
        match n {
            AstNode::ChantDef { name, params, body, .. } => {
                let ghost s = self.st();
                let old_function = match &self.current_function {
                    Some(f) => Some(f.clone()),
                    None => None,
                };
                let old_entry = self.function_entry;
                let entry = self.instructions.len();
                self.current_function = Some(name.clone());
                self.function_entry = Some(entry);
                self.record_function(name, entry);
                self.push_scope();
                proof {
                    assert(self.st() =~= (CState {
                        current_function: Some(name@),
                        function_entry: Some(entry),
                        functions: assoc_insert(s.functions, name@, entry),
                        scopes: s.scopes.push(Seq::empty()),
                        ..s
                    }));
                }
                match self.compile_params(params) {
                    Err(e) => return Err(e),
                    Ok(()) => {},
                }
                let last = match self.compile_stmts(body) {
                    Err(e) => return Err(e),
                    Ok(x) => x,
                };
                if last.is_none() {
                    let reg = match self.take_register() {
                        Err(e) => return Err(e),
                        Ok(x) => x,
                    };
                    self.emit(Instruction::LoadNothing { dest: reg });
                    self.emit(Instruction::Return { value: reg });
                    self.free_register();
                }
                let ghost s5 = self.st();
                self.pop_scope();
                self.current_function = old_function;
                self.function_entry = old_entry;
                proof {
                    assert(self.st() =~= (CState {
                        scopes: s5.scopes.drop_last(),
                        current_function: s.current_function,
                        function_entry: s.function_entry,
                        ..s5
                    }));
                }
                Ok(None)
            },
            _ => Ok(None),
        }
    }

    /// A copy of the chunk compiled so far.
    fn chunk(&self) -> (c: CompiledChunk)
        requires
            self.wf(),
        ensures
            chunk_matches(c, self.st(), self.chunk_name()),
    {
        let mut instructions: Vec<Instruction> = Vec::new();
        let mut i: usize = 0;
        while i < self.instructions.len()
            invariant
                i <= self.instructions@.len(),
                instructions@ == self.instructions@.take(i as int),
            decreases self.instructions@.len() - i,
        {
            instructions.push(self.instructions[i]);
            i += 1;
            assert(instructions@ =~= self.instructions@.take(i as int));
        }
        let mut lines: Vec<usize> = Vec::new();
        let mut i: usize = 0;
        while i < self.lines.len()
            invariant
                i <= self.lines@.len(),
                lines@ == self.lines@.take(i as int),
            decreases self.lines@.len() - i,
        {
            lines.push(self.lines[i]);
            i += 1;
            assert(lines@ =~= self.lines@.take(i as int));
        }
        let mut constants: Vec<ConstantValue> = Vec::new();
        let mut i: usize = 0;
        while i < self.constants.len()
            invariant
                i <= self.constants@.len(),
                constants@.len() == i,
                forall|j: int| 0 <= j < i ==> #[trigger] constants@[j]@ == self.constants@[j]@,
            decreases self.constants@.len() - i,
        {
            let c = copy_constant(&self.constants[i]);
            constants.push(c);
            i += 1;
        }
        assert(consts_view(constants@) =~= consts_view(self.constants@));
        assert(self.instructions@.take(self.instructions@.len() as int) =~= self.instructions@);
        assert(self.lines@.take(self.lines@.len() as int) =~= self.lines@);
        CompiledChunk {
            instructions,
            constants,
            lines,
            name: self.name.clone(),
            param_count: self.param_count,
            local_count: self.chunk_local_count,
        }
    }

    /// Compile a list of statements into the chunk: the last statement's
    /// value is moved to register 0 and `Halt` ends the code (see
    /// `program_code`). The result is a copy of the chunk; `Abort` reports
    /// a program that cannot be compiled at all (a jump that cannot be
    /// patched).
    pub fn compile_checked(&mut self, nodes: &[AstNode]) -> (r: Result<CompiledChunk, CompileStop>)
        requires
            old(self).wf(),
        ensures
            final(self).wf(),
            final(self).chunk_name() == old(self).chunk_name(),
            final(self).st() == program_code(old(self).st(), nodes@).0,
            match r {
                Ok(c) => program_code(old(self).st(), nodes@).1 == Ok::<(), Stop>(())
                    && chunk_matches(c, final(self).st(), final(self).chunk_name()),
                Err(e) => program_code(old(self).st(), nodes@).1 == Err::<(), Stop>(e@),
            },
    {
        let mut last: Option<u8> = None;
        let mut i: usize = 0;
        proof {
            assert(nodes@.skip(0) =~= nodes@);
        }
        while i < nodes.len()
            invariant
                self.wf(),
                self.chunk_name() == old(self).chunk_name(),
                i <= nodes@.len(),
                stmts_code(old(self).st(), nodes@, None) == stmts_code(self.st(), nodes@.skip(i as int), last),
            decreases nodes@.len() - i,
        {
            proof {
                assert(nodes@.skip(i as int)[0] == nodes@[i as int]);
                assert(nodes@.skip(i as int).drop_first() =~= nodes@.skip(i + 1));
            }
            last = match self.compile_stmt(&nodes[i]) {
                Err(e) => return Err(e),
                Ok(x) => x,
            };
            i += 1;
        }
        proof {
            assert(nodes@.skip(i as int) =~= Seq::<AstNode>::empty());
        }
        match last {
            Some(reg) => if reg != 0 {
                self.emit(Instruction::Move { dest: 0, src: reg });
            },
            None => {},
        }
        self.emit(Instruction::Halt);
        Ok(self.chunk())
    }

    /// Compile a list of statements into the chunk (see `compile_checked`),
    /// for a program whose compilation does not abort.
    pub fn compile(&mut self, nodes: &[AstNode]) -> (r: Result<CompiledChunk, CompileError>)
        requires
            old(self).wf(),
            !aborts(program_code(old(self).st(), nodes@)),
        ensures
            final(self).wf(),
            final(self).chunk_name() == old(self).chunk_name(),
            final(self).st() == program_code(old(self).st(), nodes@).0,
            match r {
                Ok(c) => program_code(old(self).st(), nodes@).1 == Ok::<(), Stop>(())
                    && chunk_matches(c, final(self).st(), final(self).chunk_name()),
                Err(e) => program_code(old(self).st(), nodes@).1 == Err::<(), Stop>(Stop::Error(e@)),
            },
    {
        match self.compile_checked(nodes) {
            Ok(c) => Ok(c),
            Err(CompileStop::Error(e)) => Err(e),
            // The precondition rules an abort out; this arm is never taken.
            Err(CompileStop::Abort) => Err(CompileError::TooManyRegisters),
        }
    }
}

/// Compile a program into a chunk named `main` (see `program_code`);
/// `Abort` reports a program that cannot be compiled at all.
pub fn compile_checked(nodes: &[AstNode]) -> (r: Result<CompiledChunk, CompileStop>)
    ensures
        match r {
            Ok(c) => program_code(initial_state(), nodes@).1 == Ok::<(), Stop>(())
                && chunk_matches(c, program_code(initial_state(), nodes@).0, "main"@),
            Err(e) => program_code(initial_state(), nodes@).1 == Err::<(), Stop>(e@),
        },
{
    let mut compiler = BytecodeCompiler::new(String::from_str("main"));
    compiler.compile_checked(nodes)
}

/// Compile a program into a chunk named `main` (see `program_code`), for a
/// program whose compilation does not abort.
pub fn compile(nodes: &[AstNode]) -> (r: Result<CompiledChunk, CompileError>)
    requires
        !aborts(program_code(initial_state(), nodes@)),
    ensures
        match r {
            Ok(c) => program_code(initial_state(), nodes@).1 == Ok::<(), Stop>(())
                && chunk_matches(c, program_code(initial_state(), nodes@).0, "main"@),
            Err(e) => program_code(initial_state(), nodes@).1 == Err::<(), Stop>(Stop::Error(e@)),
        },
{
    let mut compiler = BytecodeCompiler::new(String::from_str("main"));
    compiler.compile(nodes)
}

} // verus!
