//! The program representation the interpreter executes: blocks of lowered
//! statements, expression trees, declarations and the identities of the
//! predefined built-in procedures and functions.
//!
//! Structured control forms (multi-way if, loops, begin/end blocks,
//! break/continue) are carried in the representation but are not executable
//! at this layer: the accepted input is assumed already lowered to primitive
//! goto/label form by an upstream pass, and executing one of them is a fatal
//! error, never a silent skip.

use vstd::prelude::*;
use crate::values::VariableType;
use crate::values::VariableValue;

verus! {

/// A unary operator.
#[derive(Debug, Clone, Copy, PartialEq, Eq, Structural)]
pub enum UnaryOp {
    Plus,
    Minus,
    Not,
}

/// A binary operator.
#[derive(Debug, Clone, Copy, PartialEq, Eq, Structural)]
pub enum BinOp {
    PoW,
    Mul,
    Div,
    Mod,
    Add,
    Sub,
    Eq,
    NotEq,
    Lower,
    LowerEq,
    Greater,
    GreaterEq,
    And,
    Or,
}

/// The predefined functions callable from expressions. The implemented ones
/// are the channel-error predicate and two pure helpers; the rest of the
/// legacy catalog stays listed so that reaching one fails the specific
/// named operation instead of being silently absent.
#[derive(Debug, Clone, Copy, PartialEq, Eq, Structural)]
pub enum FuncOp {
    Ferr,
    Abs,
    Len,
    Upper,
    Lower,
    Mid,
    Left,
    Right,
    Random,
    DateF,
    TimeF,
    UName,
    Exist,
    Chr,
    Asc,
    InStr,
    Trim,
}

/// The predefined procedures callable from statements. The implemented ones
/// carry the interpreter's file, user, node, output and timing behaviour;
/// every other listed operation fails as explicitly unsupported, and the
/// three buffer flushes are documented no-ops.
#[derive(Debug, Clone, Copy, PartialEq, Eq, Structural)]
pub enum ProcOp {
    Cls,
    ClrEol,
    FCreate,
    FOpen,
    FAppend,
    FClose,
    FGet,
    FPut,
    FPutLn,
    FRewind,
    GetUser,
    PutUser,
    GetAltUser,
    Delay,
    DispStr,
    MPrint,
    MPrintLn,
    SPrint,
    SPrintLn,
    KbdStuff,
    AnsiPos,
    RdUnet,
    WrUnet,
    Tokenize,
    KbdFlush,
    MdmFlush,
    KeyFlush,
    More,
    Wait,
    Color,
    ConfFlag,
    ConfUnflag,
    Input,
    ResetDisp,
    StartDisp,
    FPutPad,
    Hangup,
    DefColor,
    Delete,
    DelUser,
    AdjTime,
    Log,
    InputStr,
    InputYN,
    InputMoney,
    InputInt,
    InputCC,
    InputDate,
    InputTime,
    PromptStr,
    DtrOn,
    DtrOff,
    CdChkOn,
    CdChkOff,
    SendModem,
    NewLine,
    NewLines,
    GetToken,
    Shell,
    DispText,
    Stop,
    InputText,
    Beep,
    Push,
    Pop,
    Join,
    Quest,
    Blt,
    Dir,
    KbdFile,
    Bye,
    Goodbye,
    Broadcast,
    WaitFor,
    KbdChkOn,
    KbdChkOff,
    OpText,
    Rename,
    Copy,
    SaveScrn,
    RestScrn,
    Sound,
    Chat,
    Sort,
    Redim,
    Append,
    FSeek,
    FFlush,
    FCloseAll,
}

/// An expression tree.
#[derive(Debug)]
pub enum Expression {
    /// A literal value.
    Const(VariableValue),
    /// A variable of the current frame.
    Identifier(String),
    /// A parenthesized subexpression.
    Parens(Box<Expression>),
    /// A predefined function applied to arguments.
    FuncCall(FuncOp, Vec<Expression>),
    /// An element of an array variable, with one index expression per
    /// dimension, in legacy 1-based indexing.
    Dim(String, Vec<Expression>),
    Unary(UnaryOp, Box<Expression>),
    Binary(BinOp, Box<Expression>, Box<Expression>),
}

/// A variable reference in a declaration or on the left of an assignment:
/// the name, with one dimension expression per array dimension.
#[derive(Debug)]
pub enum VarInfo {
    Var0(String),
    Var1(String, Box<Expression>),
    Var2(String, Box<Expression>, Box<Expression>),
    Var3(String, Box<Expression>, Box<Expression>, Box<Expression>),
}

impl VarInfo {
    /// The declared or assigned name.
    pub fn get_name(&self) -> (r: &String)
        ensures
            r@ == var_info_name(*self),
    {
        match self {
            VarInfo::Var0(name) => name,
            VarInfo::Var1(name, _) => name,
            VarInfo::Var2(name, _, _) => name,
            VarInfo::Var3(name, _, _, _) => name,
        }
    }

    /// Whether the reference names an array.
    pub fn is_array(&self) -> (r: bool)
        ensures
            r == (var_info_dims(*self) > 0),
    {
        match self {
            VarInfo::Var0(_) => false,
            _ => true,
        }
    }
}

/// The name a variable reference carries.
pub open spec fn var_info_name(v: VarInfo) -> Seq<char> {
    match v {
        VarInfo::Var0(name) => name@,
        VarInfo::Var1(name, _) => name@,
        VarInfo::Var2(name, _, _) => name@,
        VarInfo::Var3(name, _, _, _) => name@,
    }
}

/// How many dimensions a variable reference declares.
pub open spec fn var_info_dims(v: VarInfo) -> int {
    match v {
        VarInfo::Var0(_) => 0,
        VarInfo::Var1(_, _) => 1,
        VarInfo::Var2(_, _, _) => 2,
        VarInfo::Var3(_, _, _, _) => 3,
    }
}

/// A declaration of the program: global variables, or the signature of a
/// procedure or function implementation.
#[derive(Debug)]
pub enum Declaration {
    Variable(VariableType, Vec<VarInfo>),
    Procedure(String, Vec<Declaration>),
    Function(String, Vec<Declaration>, VariableType),
}

/// One ordered list of statements.
#[derive(Debug)]
pub struct Block {
    pub statements: Vec<Statement>,
}

/// A lowered statement.
#[derive(Debug)]
pub enum Statement {
    Comment(String),
    End,
    /// Assigns the evaluated expression to the referenced variable,
    /// coercing to its declared type; for an array target the first index
    /// expression selects the legacy 1-based slot.
    Let(VarInfo, Expression),
    Goto(String),
    Gosub(String),
    Return,
    /// Executes the attached statement when the condition is true.
    If(Expression, Box<Statement>),
    Inc(String),
    Dec(String),
    /// A predefined procedure with argument expressions.
    Call(ProcOp, Vec<Expression>),
    /// A user-defined procedure with actual arguments.
    ProcedureCall(String, Vec<Expression>),
    Label(String),
    /// Structured forms: fatal when executed, see the module note.
    Continue,
    Break,
    For(String, Box<Expression>, Box<Expression>, Option<Box<Expression>>, Vec<Statement>),
    DoWhile(Box<Expression>, Vec<Statement>),
    IfThen(Box<Expression>, Vec<Statement>),
    BlockStmt(Vec<Statement>),
}

/// A user-defined procedure: its declared signature and its body.
#[derive(Debug)]
pub struct ProcedureImpl {
    pub declaration: Declaration,
    pub block: Block,
}

/// An immutable program: the main block, global declarations, and the
/// procedure implementations. The interpreter never mutates it.
#[derive(Debug)]
pub struct Program {
    pub main_block: Block,
    pub declarations: Vec<Declaration>,
    pub procedure_implementations: Vec<ProcedureImpl>,
}

/// The declared type and reference of the first declaration of a name,
/// scanning declarations in order and each declaration's references in
/// order (first declaration wins).
pub open spec fn find_var_decl(decls: Seq<Declaration>, name: Seq<char>) -> Option<VariableType>
    decreases decls.len(),
{
    if decls.len() == 0 {
        None
    } else {
        match first_decl_type(decls[0], name) {
            Some(t) => Some(t),
            None => find_var_decl(decls.drop_first(), name),
        }
    }
}

/// The type one declaration gives a name, when it declares it.
pub open spec fn first_decl_type(d: Declaration, name: Seq<char>) -> Option<VariableType> {
    match d {
        Declaration::Variable(t, infos) => if exists|i: int|
            0 <= i < infos@.len() && var_info_name(#[trigger] infos@[i]) == name {
            Some(t)
        } else {
            None
        },
        _ => None,
    }
}

impl Program {
    /// The declared type of a global variable; `Unknown` when the program
    /// does not declare the name.
    pub fn get_var_type(&self, name: &String) -> (r: VariableType)
        ensures
            r == match find_var_decl(self.declarations@, name@) {
                Some(t) => t,
                None => VariableType::Unknown,
            },
    {
        let n = self.declarations.len();
        let mut i: usize = 0;
        proof {
            assert(self.declarations@.skip(0) =~= self.declarations@);
        }
        while i < n
            invariant
                n == self.declarations@.len(),
                i <= n,
                find_var_decl(self.declarations@, name@) == find_var_decl(
                    self.declarations@.skip(i as int),
                    name@,
                ),
            decreases n - i,
        {
            let ghost rest: Seq<Declaration> = self.declarations@.skip(i as int);
            proof {
                assert(rest.len() > 0);
                assert(rest[0] == self.declarations@[i as int]);
                assert(rest.drop_first() =~= self.declarations@.skip(i as int + 1));
            }
            match decl_type_of(&self.declarations[i], name) {
                Some(t) => {
                    return t;
                },
                None => {},
            }
            i = i + 1;
        }
        proof {
            assert(self.declarations@.skip(n as int).len() == 0);
        }
        VariableType::Unknown
    }

    /// Whether the program declares the name as an array (with one or more
    /// dimensions) in some global declaration.
    pub fn var_is_array(&self, name: &String) -> (r: bool)
        ensures
            r == declared_as_array(self.declarations@, name@),
    {
        let n = self.declarations.len();
        let mut i: usize = 0;
        while i < n
            invariant
                n == self.declarations@.len(),
                i <= n,
                forall|a: int|
                    0 <= a < i ==> !decl_has_array(#[trigger] self.declarations@[a], name@),
            decreases n - i,
        {
            if decl_array_of(&self.declarations[i], name) {
                return true;
            }
            i = i + 1;
        }
        proof {
            if declared_as_array(self.declarations@, name@) {
                let (a, b): (int, int) = choose|a: int, b: int|
                    0 <= a < self.declarations@.len() && 0 <= b < decl_infos(
                        #[trigger] self.declarations@[a],
                    ).len() && var_info_name(#[trigger] decl_infos(self.declarations@[a])[b])
                        == name@ && var_info_dims(decl_infos(self.declarations@[a])[b]) > 0;
                assert(decl_has_array(self.declarations@[a], name@));
            }
        }
        false
    }
}

/// The type one declaration gives a name, when it declares it.
fn decl_type_of(d: &Declaration, name: &String) -> (r: Option<VariableType>)
    ensures
        r == first_decl_type(*d, name@),
{
    match d {
        Declaration::Variable(t, infos) => {
            let m = infos.len();
            let mut j: usize = 0;
            while j < m
                invariant
                    m == infos@.len(),
                    j <= m,
                    *d == Declaration::Variable(*t, *infos),
                    forall|k: int| 0 <= k < j ==> var_info_name(#[trigger] infos@[k]) != name@,
                decreases m - j,
            {
                let hit = infos[j].get_name().eq(name);
                if hit {
                    proof {
                        assert(var_info_name(infos@[j as int]) == name@);
                        assert(exists|i2: int|
                            0 <= i2 < infos@.len() && var_info_name(#[trigger] infos@[i2])
                                == name@);
                        assert(decl_infos(*d) == infos@);
                        assert(first_decl_type(*d, name@) == Some(*t));
                    }
                    return Some(*t);
                }
                j = j + 1;
            }
            None
        },
        _ => None,
    }
}

/// Whether one declaration declares the name with dimensions.
pub open spec fn decl_has_array(d: Declaration, name: Seq<char>) -> bool {
    exists|b: int|
        0 <= b < decl_infos(d).len() && var_info_name(#[trigger] decl_infos(d)[b]) == name
            && var_info_dims(decl_infos(d)[b]) > 0
}

/// Scans one declaration for an array reference of the name.
fn decl_array_of(d: &Declaration, name: &String) -> (r: bool)
    ensures
        r == decl_has_array(*d, name@),
{
    match d {
        Declaration::Variable(_, infos) => {
            let m = infos.len();
            let mut j: usize = 0;
            while j < m
                invariant
                    m == infos@.len(),
                    j <= m,
                    decl_infos(*d) == infos@,
                    forall|k: int|
                        0 <= k < j ==> !(var_info_name(#[trigger] infos@[k]) == name@
                            && var_info_dims(infos@[k]) > 0),
                decreases m - j,
            {
                let hit = infos[j].get_name().eq(name) && infos[j].is_array();
                if hit {
                    proof {
                        assert(decl_infos(*d) == infos@);
                        assert(var_info_name(decl_infos(*d)[j as int]) == name@
                            && var_info_dims(decl_infos(*d)[j as int]) > 0);
                    }
                    return true;
                }
                j = j + 1;
            }
            false
        },
        _ => false,
    }
}

/// The first declared reference of a name, scanning declarations in order
/// and each declaration's references in order.
pub open spec fn find_var_info(decls: Seq<Declaration>, name: Seq<char>) -> Option<VarInfo>
    decreases decls.len(),
{
    if decls.len() == 0 {
        None
    } else {
        match first_decl_info(decls[0], name) {
            Some(vi) => Some(vi),
            None => find_var_info(decls.drop_first(), name),
        }
    }
}

/// The first reference of the name inside one declaration.
pub open spec fn first_decl_info(d: Declaration, name: Seq<char>) -> Option<VarInfo> {
    match d {
        Declaration::Variable(_, infos) => first_info(infos@, name),
        _ => None,
    }
}

/// The first reference of the name in a reference list.
pub open spec fn first_info(infos: Seq<VarInfo>, name: Seq<char>) -> Option<VarInfo>
    decreases infos.len(),
{
    if infos.len() == 0 {
        None
    } else if var_info_name(infos[0]) == name {
        Some(infos[0])
    } else {
        first_info(infos.drop_first(), name)
    }
}

/// Scans one declaration for the first reference of the name.
fn decl_info_of<'a>(d: &'a Declaration, name: &String) -> (r: Option<&'a VarInfo>)
    ensures
        match r {
            Some(vi) => first_decl_info(*d, name@) == Some(*vi),
            None => first_decl_info(*d, name@) is None,
        },
{
    match d {
        Declaration::Variable(_, infos) => {
            let m = infos.len();
            let mut j: usize = 0;
            proof {
                assert(infos@.skip(0) =~= infos@);
            }
            while j < m
                invariant
                    m == infos@.len(),
                    j <= m,
                    *d == Declaration::Variable(decl_var_type(*d), *infos),
                    first_info(infos@, name@) == first_info(infos@.skip(j as int), name@),
                decreases m - j,
            {
                let ghost rest: Seq<VarInfo> = infos@.skip(j as int);
                proof {
                    assert(rest.len() > 0);
                    assert(rest[0] == infos@[j as int]);
                    assert(rest.drop_first() =~= infos@.skip(j as int + 1));
                }
                let hit = infos[j].get_name().eq(name);
                if hit {
                    return Some(&infos[j]);
                }
                j = j + 1;
            }
            proof {
                assert(infos@.skip(m as int).len() == 0);
            }
            None
        },
        _ => None,
    }
}

/// The declared type a variable declaration carries; `Unknown` otherwise.
pub open spec fn decl_var_type(d: Declaration) -> VariableType {
    match d {
        Declaration::Variable(t, _) => t,
        _ => VariableType::Unknown,
    }
}

/// The variable references one declaration carries.
pub open spec fn decl_infos(d: Declaration) -> Seq<VarInfo> {
    match d {
        Declaration::Variable(_, infos) => infos@,
        _ => Seq::empty(),
    }
}

/// Whether some global declaration declares the name with dimensions.
pub open spec fn declared_as_array(decls: Seq<Declaration>, name: Seq<char>) -> bool {
    exists|a: int, b: int|
        0 <= a < decls.len() && 0 <= b < decl_infos(#[trigger] decls[a]).len() && var_info_name(
            #[trigger] decl_infos(decls[a])[b],
        ) == name && var_info_dims(decl_infos(decls[a])[b]) > 0
}

impl Program {
    /// The first declared reference of a global variable's name.
    pub fn get_var_info(&self, name: &String) -> (r: Option<&VarInfo>)
        ensures
            match r {
                Some(vi) => find_var_info(self.declarations@, name@) == Some(*vi),
                None => find_var_info(self.declarations@, name@) is None,
            },
    {
        let n = self.declarations.len();
        let mut i: usize = 0;
        proof {
            assert(self.declarations@.skip(0) =~= self.declarations@);
        }
        while i < n
            invariant
                n == self.declarations@.len(),
                i <= n,
                find_var_info(self.declarations@, name@) == find_var_info(
                    self.declarations@.skip(i as int),
                    name@,
                ),
            decreases n - i,
        {
            let ghost rest: Seq<Declaration> = self.declarations@.skip(i as int);
            proof {
                assert(rest.len() > 0);
                assert(rest[0] == self.declarations@[i as int]);
                assert(rest.drop_first() =~= self.declarations@.skip(i as int + 1));
            }
            match decl_info_of(&self.declarations[i], name) {
                Some(vi) => {
                    return Some(vi);
                },
                None => {},
            }
            i = i + 1;
        }
        proof {
            assert(self.declarations@.skip(n as int).len() == 0);
        }
        None
    }
}


} // verus!
