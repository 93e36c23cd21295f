//! The interpreter runtime: the execution-context interface, the frame
//! stack, the user-record built-ins, and the frame-stack execution engine.
//!
//! One run occupies one logical thread of control: the statement executor
//! walks the current block's statements with an explicit program counter
//! per frame, and a procedure call pushes a fresh frame rather than
//! recursing, so the whole engine is a single loop over an explicit stack.

use vstd::prelude::*;
use crate::ast::Block;
use crate::ast::BinOp;
use crate::ast::Declaration;
use crate::ast::Program;
use crate::ast::ProcOp;
use crate::ast::Statement;
use crate::ast::find_var_decl;
use crate::ast::find_var_info;
use crate::ast::Expression;
use crate::ast::FuncOp;
use crate::ast::UnaryOp;
use crate::ast::VarInfo;
use crate::ast::var_info_dims;
use crate::ast::var_info_name;
use crate::data::IcyBoardData;
use crate::data::Node;
use crate::data::UserRecord;
use crate::errors::Error;
use crate::frame::BlockId;
use crate::frame::StackFrame;
use crate::frame::calc_table;
use crate::frame::label_map;
use crate::frame::lemma_label_map_characterization;
use crate::io::PCBoardIO;
use crate::ops::add_view;
use crate::ops::div_trunc;
use crate::ops::rem_trunc;
use crate::ops::value_add;
use crate::ops::value_div;
use crate::ops::value_eq;
use crate::ops::value_lt;
use crate::ops::value_mod;
use crate::ops::value_mul;
use crate::ops::value_neg;
use crate::ops::value_not;
use crate::ops::value_sub;
use crate::ops::value_truthy;
use crate::text::clamp_i32;
use crate::values::ScalarView;
use crate::values::ValView;
use crate::values::VariableType;
use crate::values::VariableValue;
use crate::values::get_int;
use crate::values::get_string;
use crate::values::int_of;
use crate::values::render_of;
use crate::values::scalar_view;
use crate::values::truthy_of;
use crate::values::vv_view;
use crate::values::wrap_i32;

verus! {

/// The terminal sink and session-input interface a host supplies. The
/// screen-buffer emulation of the reference deployment is host business and
/// stays outside this interface; a blocking sleep is part of it because the
/// delay built-in must block the session without the verified core touching
/// the clock.
pub trait ExecutionContext {
    /// Moves the cursor to a 0-based column and row.
    fn gotoxy(&mut self, x: i32, y: i32) -> Result<(), Error>;

    /// Prints application text (the host transcodes the legacy escapes).
    fn print(&mut self, text: &str) -> Result<(), Error>;

    /// Writes bytes to the terminal (the host transcodes the legacy
    /// escapes).
    fn write_raw(&mut self, data: &[u8]) -> Result<(), Error>;

    /// Reads one line, blocking until a line ending or the host's timeout.
    fn read(&mut self) -> Result<String, Error>;

    /// Polls one character without blocking.
    fn get_char(&mut self) -> Result<Option<char>, Error>;

    /// How many input bytes are pending.
    fn inbytes(&mut self) -> i32;

    /// Sets the current attribute byte directly.
    fn set_color(&mut self, color: u8);

    /// Injects simulated user input for later processing.
    fn send_to_com(&mut self, data: &str) -> Result<(), Error>;

    /// Writes to the host's diagnostic stream instead of the terminal.
    fn sprint(&mut self, text: &str) -> Result<(), Error>;

    /// Blocks the session for the given number of milliseconds.
    fn sleep(&mut self, ms: u64);
}

/// The state of one run: the frame stack, the running flag, the defensive
/// copy of the host session state, and the user/node scratch slots.
pub struct Interpreter {
    pub cur_frame: Vec<StackFrame>,
    pub is_running: bool,
    pub icb_data: IcyBoardData,
    pub cur_user: usize,
    pub current_user: Option<UserRecord>,
    pub pcb_node: Option<Node>,
    pub cur_tokens: Vec<String>,
}

/// The full views of a frame's variables.
pub open spec fn vals_view(m: Map<Seq<char>, VariableValue>) -> Map<Seq<char>, ValView> {
    Map::new(|k: Seq<char>| m.dom().contains(k), |k: Seq<char>| vv_view(m[k]))
}

/// Inserting a binding inserts its view.
pub proof fn lemma_vals_view_insert(m: Map<Seq<char>, VariableValue>, k: Seq<char>, v: VariableValue)
    ensures
        vals_view(m.insert(k, v)) == vals_view(m).insert(k, vv_view(v)),
{
    assert(vals_view(m.insert(k, v)) =~= vals_view(m).insert(k, vv_view(v)));
}

impl Interpreter {
    /// At least the bottom frame exists.
    pub open spec fn has_frames(&self) -> bool {
        self.cur_frame@.len() >= 1
    }

    /// The innermost frame.
    pub open spec fn top(&self) -> StackFrame {
        self.cur_frame@.last()
    }

    /// The views of the innermost frame's variables.
    pub open spec fn cur_vals(&self) -> Map<Seq<char>, ValView> {
        vals_view(self.top().values@)
    }
}

/// The interpreter fields beside the frame stack are unchanged.
pub open spec fn same_host_state(a: &Interpreter, b: &Interpreter) -> bool {
    &&& a.is_running == b.is_running
    &&& a.icb_data.users@ == b.icb_data.users@
    &&& a.icb_data.nodes@ == b.icb_data.nodes@
    &&& a.icb_data.pcb_data == b.icb_data.pcb_data
    &&& a.cur_user == b.cur_user
    &&& a.current_user == b.current_user
    &&& a.pcb_node == b.pcb_node
    &&& a.cur_tokens@ == b.cur_tokens@
}

/// Removes the innermost frame and hands it out.
fn take_top(interp: &mut Interpreter) -> (f: StackFrame)
    requires
        old(interp).has_frames(),
    ensures
        f == old(interp).top(),
        final(interp).cur_frame@ == old(interp).cur_frame@.drop_last(),
        same_host_state(old(interp), final(interp)),
{
    let popped = interp.cur_frame.pop();
    match popped {
        Some(f) => f,
        None => vstd::pervasive::unreached(),
    }
}

/// Puts a frame back as the innermost one.
fn put_top(interp: &mut Interpreter, f: StackFrame)
    ensures
        final(interp).cur_frame@ == old(interp).cur_frame@.push(f),
        same_host_state(old(interp), final(interp)),
{
    interp.cur_frame.push(f);
}

/// The mirrored user variables: what one `getuser` leaves in the frame.
/// The synthesized address array carries two fixed address lines, the
/// user's city, and fixed state, postal-code and country placeholders.
pub open spec fn mirrored_vals(m: Map<Seq<char>, ValView>, u: UserRecord) -> Map<Seq<char>, ValView> {
    m.insert("U_PAGELEN"@, ValView::Scalar(ScalarView::Int(u.page_len as int))).insert(
        "U_PWD"@,
        ValView::Scalar(ScalarView::StrV(u.password@)),
    ).insert("U_PWDEXP"@, ValView::Scalar(ScalarView::DateV(0))).insert(
        "U_SCROLL"@,
        ValView::Scalar(ScalarView::Bool(u.scroll_flag)),
    ).insert("U_SEC"@, ValView::Scalar(ScalarView::Int(u.security_level as int))).insert(
        "U_CITY"@,
        ValView::Scalar(ScalarView::StrV(u.city@)),
    ).insert("U_ADDR"@, addr_view(u))
}

/// The view of the synthesized address array.
pub open spec fn addr_view(u: UserRecord) -> ValView {
    ValView::Arr(
        1,
        VariableType::Str,
        seq![
            ScalarView::StrV("Address Line 1"@),
            ScalarView::StrV("Address Line 2"@),
            ScalarView::StrV(u.city@),
            ScalarView::StrV("State"@),
            ScalarView::StrV("ZIP Code"@),
            ScalarView::StrV("Country"@),
        ],
    )
}

/// Mirroring the same user twice, with nothing in between, leaves exactly
/// the variables one mirroring leaves: a second `getuser` with no
/// intervening `putuser` yields identical mirrored frame variables.
pub proof fn lemma_user_mirroring_idempotent(m: Map<Seq<char>, ValView>, u: UserRecord)
    ensures
        mirrored_vals(mirrored_vals(m, u), u) == mirrored_vals(m, u),
{
    assert(mirrored_vals(mirrored_vals(m, u), u) =~= mirrored_vals(m, u));
}

/// Builds the synthesized address array for a user.
fn make_addr_array(u: &UserRecord) -> (r: VariableValue)
    ensures
        vv_view(r) == addr_view(*u),
{
    let mut v: Vec<VariableValue> = Vec::new();
    v.push(VariableValue::Str("Address Line 1".to_owned()));
    v.push(VariableValue::Str("Address Line 2".to_owned()));
    v.push(VariableValue::Str(u.city.clone()));
    v.push(VariableValue::Str("State".to_owned()));
    v.push(VariableValue::Str("ZIP Code".to_owned()));
    v.push(VariableValue::Str("Country".to_owned()));
    let r = VariableValue::Dim1(VariableType::Str, v);
    proof {
        match vv_view(r) {
            ValView::Arr(d, t, elems) => {
                assert(elems =~= seq![
                    ScalarView::StrV("Address Line 1"@),
                    ScalarView::StrV("Address Line 2"@),
                    ScalarView::StrV(u.city@),
                    ScalarView::StrV("State"@),
                    ScalarView::StrV("ZIP Code"@),
                    ScalarView::StrV("Country"@),
                ]);
            },
            _ => {
                assert(false);
            },
        }
    }
    r
}

/// Writes the mirrored user variables into a frame.
fn mirror_user_vars(frame: &mut StackFrame, user: &UserRecord)
    ensures
        vals_view(final(frame).values@) == mirrored_vals(vals_view(old(frame).values@), *user),
        final(frame).gosub_stack@ == old(frame).gosub_stack@,
        final(frame).cur_ptr == old(frame).cur_ptr,
        final(frame).label_table@ == old(frame).label_table@,
        final(frame).block_id == old(frame).block_id,
{
    let ghost m0 = vals_view(frame.values@);
    proof {
        lemma_vals_view_insert(
            frame.values@,
            "U_PAGELEN"@,
            VariableValue::Integer(user.page_len),
        );
    }
    frame.values.insert("U_PAGELEN".to_owned(), VariableValue::Integer(user.page_len));
    proof {
        lemma_vals_view_insert(frame.values@, "U_PWD"@, VariableValue::Str(user.password));
    }
    frame.values.insert("U_PWD".to_owned(), VariableValue::Str(user.password.clone()));
    proof {
        lemma_vals_view_insert(frame.values@, "U_PWDEXP"@, VariableValue::Date(0));
    }
    frame.values.insert("U_PWDEXP".to_owned(), VariableValue::Date(0));
    proof {
        lemma_vals_view_insert(
            frame.values@,
            "U_SCROLL"@,
            VariableValue::Boolean(user.scroll_flag),
        );
    }
    frame.values.insert("U_SCROLL".to_owned(), VariableValue::Boolean(user.scroll_flag));
    proof {
        lemma_vals_view_insert(
            frame.values@,
            "U_SEC"@,
            VariableValue::Integer(user.security_level),
        );
    }
    frame.values.insert("U_SEC".to_owned(), VariableValue::Integer(user.security_level));
    proof {
        lemma_vals_view_insert(frame.values@, "U_CITY"@, VariableValue::Str(user.city));
    }
    frame.values.insert("U_CITY".to_owned(), VariableValue::Str(user.city.clone()));
    let addr = make_addr_array(user);
    proof {
        lemma_vals_view_insert(frame.values@, "U_ADDR"@, addr);
    }
    frame.values.insert("U_ADDR".to_owned(), addr);
}

/// Seeds the bottom frame's mirrored user variables at the start of a run.
pub fn set_user_variables(interp: &mut Interpreter, user: &UserRecord)
    requires
        old(interp).cur_frame@.len() == 1,
    ensures
        final(interp).cur_frame@.len() == 1,
        final(interp).cur_vals() == mirrored_vals(old(interp).cur_vals(), *user),
        final(interp).top().gosub_stack@ == old(interp).top().gosub_stack@,
        final(interp).top().cur_ptr == old(interp).top().cur_ptr,
        final(interp).top().label_table@ == old(interp).top().label_table@,
        final(interp).top().block_id == old(interp).top().block_id,
        same_host_state(old(interp), final(interp)),
{
    let mut frame = take_top(interp);
    mirror_user_vars(&mut frame, user);
    put_top(interp, frame);
}

/// Copies the session's current user into the scratch slot and mirrors the
/// user variables into the innermost frame; this happens on every call, not
/// just the first. A session index outside the user table is a fatal error.
pub fn getuser(interp: &mut Interpreter) -> (r: Result<(), Error>)
    requires
        old(interp).has_frames(),
    ensures
        final(interp).has_frames(),
        final(interp).cur_frame@.len() == old(interp).cur_frame@.len(),
        forall|i: int|
            0 <= i < old(interp).cur_frame@.len() - 1 ==> final(interp).cur_frame@[i] == old(interp).cur_frame@[i],
        final(interp).top().gosub_stack@ == old(interp).top().gosub_stack@,
        final(interp).top().cur_ptr == old(interp).top().cur_ptr,
        final(interp).top().label_table@ == old(interp).top().label_table@,
        final(interp).top().block_id == old(interp).top().block_id,
        final(interp).is_running == old(interp).is_running,
        final(interp).icb_data.users@ == old(interp).icb_data.users@,
        final(interp).icb_data.nodes@ == old(interp).icb_data.nodes@,
        final(interp).icb_data.pcb_data == old(interp).icb_data.pcb_data,
        final(interp).cur_user == old(interp).cur_user,
        final(interp).pcb_node == old(interp).pcb_node,
        final(interp).cur_tokens@ == old(interp).cur_tokens@,
        if old(interp).cur_user < old(interp).icb_data.users@.len() {
            &&& r is Ok
            &&& final(interp).current_user == Some(
                old(interp).icb_data.users@[old(interp).cur_user as int],
            )
            &&& final(interp).cur_vals() == mirrored_vals(
                old(interp).cur_vals(),
                old(interp).icb_data.users@[old(interp).cur_user as int],
            )
        } else {
            &&& r matches Err(e)
            &&& e matches Error::UserIndexOutOfBounds(_)
            &&& final(interp).current_user == old(interp).current_user
            &&& final(interp).cur_vals() == old(interp).cur_vals()
        },
{
    if interp.cur_user >= interp.icb_data.users.len() {
        return Err(Error::UserIndexOutOfBounds(interp.cur_user as i32));
    }
    let user = interp.icb_data.users[interp.cur_user].duplicate();
    let mut frame = take_top(interp);
    mirror_user_vars(&mut frame, &user);
    put_top(interp, frame);
    interp.current_user = Some(user);
    Ok(())
}

/// Mirrors an arbitrary user's record into the frame variables without
/// touching the current-user scratch slot; an index outside the user table
/// is a fatal error.
pub fn getaltuser(interp: &mut Interpreter, user_index: usize) -> (r: Result<(), Error>)
    requires
        old(interp).has_frames(),
    ensures
        final(interp).has_frames(),
        final(interp).cur_frame@.len() == old(interp).cur_frame@.len(),
        final(interp).current_user == old(interp).current_user,
        final(interp).icb_data.users@ == old(interp).icb_data.users@,
        if user_index < old(interp).icb_data.users@.len() {
            &&& r is Ok
            &&& final(interp).cur_vals() == mirrored_vals(
                old(interp).cur_vals(),
                old(interp).icb_data.users@[user_index as int],
            )
        } else {
            &&& r matches Err(e)
            &&& e matches Error::UserIndexOutOfBounds(_)
            &&& final(interp).cur_vals() == old(interp).cur_vals()
        },
        final(interp).top().gosub_stack@ == old(interp).top().gosub_stack@,
        final(interp).top().cur_ptr == old(interp).top().cur_ptr,
        final(interp).top().label_table@ == old(interp).top().label_table@,
        final(interp).top().block_id == old(interp).top().block_id,
        forall|i: int|
            0 <= i < old(interp).cur_frame@.len() - 1 ==> final(interp).cur_frame@[i] == old(interp).cur_frame@[i],
        final(interp).is_running == old(interp).is_running,
        final(interp).icb_data.nodes@ == old(interp).icb_data.nodes@,
        final(interp).icb_data.pcb_data == old(interp).icb_data.pcb_data,
        final(interp).cur_user == old(interp).cur_user,
        final(interp).pcb_node == old(interp).pcb_node,
        final(interp).cur_tokens@ == old(interp).cur_tokens@,
{
    if user_index >= interp.icb_data.users.len() {
        return Err(Error::UserIndexOutOfBounds(user_index as i32));
    }
    let user = interp.icb_data.users[user_index].duplicate();
    let mut frame = take_top(interp);
    mirror_user_vars(&mut frame, &user);
    put_top(interp, frame);
    Ok(())
}

/// Writes the current-user scratch slot back into the session's user table
/// and empties the slot; with an empty slot this does nothing. A session
/// index outside the user table is a fatal error.
pub fn putuser(interp: &mut Interpreter) -> (r: Result<(), Error>)
    ensures
        final(interp).cur_frame@ == old(interp).cur_frame@,
        final(interp).is_running == old(interp).is_running,
        final(interp).icb_data.nodes@ == old(interp).icb_data.nodes@,
        final(interp).icb_data.pcb_data == old(interp).icb_data.pcb_data,
        final(interp).cur_user == old(interp).cur_user,
        final(interp).pcb_node == old(interp).pcb_node,
        final(interp).cur_tokens@ == old(interp).cur_tokens@,
        match old(interp).current_user {
            Some(u) => {
                if old(interp).cur_user < old(interp).icb_data.users@.len() {
                    &&& r is Ok
                    &&& final(interp).icb_data.users@ == old(interp).icb_data.users@.update(
                        old(interp).cur_user as int,
                        u,
                    )
                    &&& final(interp).current_user is None
                } else {
                    &&& r matches Err(e)
                    &&& e matches Error::UserIndexOutOfBounds(_)
                    &&& final(interp).icb_data.users@ == old(interp).icb_data.users@
                    &&& final(interp).current_user == old(interp).current_user
                }
            },
            None => {
                &&& r is Ok
                &&& final(interp).icb_data.users@ == old(interp).icb_data.users@
                &&& final(interp).current_user is None
            },
        },
{
    let present = interp.current_user.is_some();
    if !present {
        interp.current_user = None;
        return Ok(());
    }
    if interp.cur_user >= interp.icb_data.users.len() {
        return Err(Error::UserIndexOutOfBounds(interp.cur_user as i32));
    }
    let mut user: Option<UserRecord> = None;
    core::mem::swap(&mut user, &mut interp.current_user);
    match user {
        Some(u) => {
            let idx = interp.cur_user;
            interp.icb_data.users[idx] = u;
            Ok(())
        },
        None => vstd::pervasive::unreached(),
    }
}

/// How long one delay blocks: `ticks * 1000 / 18.2` milliseconds at the
/// legacy 18.2 Hz clock tick, rounded up to a whole millisecond; zero or
/// negative ticks do not block.
pub fn delay_ms(ticks: i32) -> (ms: u64)
    ensures
        ticks > 0 ==> ms == ((ticks as int) * 5000 + 90) / 91,
        ticks <= 0 ==> ms == 0,
{
    if ticks <= 0 {
        0
    } else {
        ((ticks as u64) * 5000 + 90) / 91
    }
}

/// The all-zero storage a freshly materialized array starts with.
pub open spec fn zero_elems(d: int) -> Seq<ScalarView> {
    Seq::new(d as nat, |i: int| ScalarView::Int(0))
}

/// The first dimension expression a declared array reference carries.
pub open spec fn first_index_of(v: VarInfo) -> Expression {
    match v {
        VarInfo::Var0(_) => Expression::Const(VariableValue::Boolean(false)),
        VarInfo::Var1(_, e) => *e,
        VarInfo::Var2(_, e, _) => *e,
        VarInfo::Var3(_, e, _, _) => *e,
    }
}

/// Lazily materializes an array for a declared array variable: the first
/// dimension expression gives the element count, and every slot starts as
/// integer zero. A negative size is a fatal error.
pub fn create_array<IO: crate::io::PCBoardIO>(
    interp: &Interpreter,
    io: &IO,
    var_type: VariableType,
    var_info: &VarInfo,
) -> (r: Result<VariableValue, Error>)
    requires
        interp.has_frames(),
        var_info_dims(*var_info) > 0,
    ensures
        match r {
            Ok(v) => match vv_view(v) {
                ValView::Arr(d, t, elems) => t == var_type && d == var_info_dims(*var_info) && (
                var_info_dims(*var_info) == 1 ==> elems == zero_elems(elems.len() as int)),
                _ => false,
            },
            Err(_) => true,
        },
        var_info_dims(*var_info) == 1 ==> match spec_eval(
            interp.cur_vals(),
            first_index_of(*var_info),
        ) {
            EvalView::Val(sv) => match int_of(sv) {
                Some(d) => if d >= 0 {
                    r matches Ok(v) && vv_view(v) == ValView::Arr(1, var_type, zero_elems(d))
                } else {
                    r matches Err(Error::ArrayIndexOutOfBounds(_))
                },
                None => r is Err,
            },
            EvalView::Fault => r is Err,
            EvalView::Ext => true,
        },
{
    match var_info {
        VarInfo::Var0(_) => Err(Error::NotSupported),
        VarInfo::Var1(_, dim_expr) => {
            let dim_value = evaluate_exp(interp, io, dim_expr)?;
            let dim = crate::values::get_int(&dim_value)?;
            if dim < 0 {
                return Err(Error::ArrayIndexOutOfBounds(dim));
            }
            let count = dim as usize;
            let mut v: Vec<VariableValue> = Vec::new();
            let mut i: usize = 0;
            while i < count
                invariant
                    i <= count,
                    v@.len() == i,
                    forall|k: int|
                        0 <= k < i ==> (#[trigger] v@[k]) == VariableValue::Integer(0),
                decreases count - i,
            {
                v.push(VariableValue::Integer(0));
                i = i + 1;
            }
            let arr = VariableValue::Dim1(var_type, v);
            proof {
                match vv_view(arr) {
                    ValView::Arr(d, t, elems) => {
                        assert(elems =~= zero_elems(count as int));
                    },
                    _ => {
                        assert(false);
                    },
                }
            }
            Ok(arr)
        },
        VarInfo::Var2(_, _, _) => Ok(VariableValue::Dim2(var_type, Vec::new())),
        VarInfo::Var3(_, _, _, _) => Ok(VariableValue::Dim3(var_type, Vec::new())),
    }
}

/// Stores a value into an array's storage slot (already converted from the
/// legacy 1-based index). Only one-dimensional arrays are writable at this
/// layer; a slot outside the array is a fatal error.
pub fn set_array_value(
    arr: &mut VariableValue,
    var_info: &VarInfo,
    val: VariableValue,
    dim1: usize,
) -> (r: Result<(), Error>)
    requires
        var_info_dims(*var_info) > 0,
    ensures
        match r {
            Ok(()) => var_info_dims(*var_info) == 1 && match (vv_view(*old(arr)), vv_view(
                *final(arr),
            )) {
                (ValView::Arr(d0, t0, e0), ValView::Arr(d1, t1, e1)) => d0 == 1 && d1 == 1 && t1
                    == t0 && dim1 < e0.len() && e1 == e0.update(
                    dim1 as int,
                    crate::values::scalar_view(val),
                ),
                _ => false,
            },
            Err(e) => *final(arr) == *old(arr) && (var_info_dims(*var_info) != 1 ==> e
                matches Error::NotSupported),
        },
        var_info_dims(*var_info) == 1 ==> match *old(arr) {
            VariableValue::Dim1(_, _) => match vv_view(*old(arr)) {
                ValView::Arr(_, _, e0) => if dim1 < e0.len() {
                    r is Ok
                } else {
                    r matches Err(Error::ArrayIndexOutOfBounds(_))
                },
                _ => false,
            },
            _ => r matches Err(Error::TypeMismatch),
        },
{
    match var_info {
        VarInfo::Var1(_, _) => {
            match arr {
                VariableValue::Dim1(_, data) => {
                    if dim1 < data.len() {
                        data[dim1] = val;
                        proof {
                            match (vv_view(*old(arr)), vv_view(*arr)) {
                                (ValView::Arr(d0, t0, e0), ValView::Arr(d1, t1, e1)) => {
                                    assert(e1 =~= e0.update(
                                        dim1 as int,
                                        crate::values::scalar_view(val),
                                    ));
                                },
                                _ => {
                                    assert(false);
                                },
                            }
                        }
                        Ok(())
                    } else {
                        Err(Error::ArrayIndexOutOfBounds(dim1 as i32))
                    }
                },
                _ => Err(Error::TypeMismatch),
            }
        },
        VarInfo::Var0(_) => Err(Error::NotSupported),
        _ => Err(Error::NotSupported),
    }
}

/// The first index expression of an array reference.
pub fn get_first_index(var_info: &VarInfo) -> (r: &Expression)
    requires
        var_info_dims(*var_info) > 0,
    ensures
        *r == first_index_of(*var_info),
{
    match var_info {
        VarInfo::Var1(_, v) => v,
        VarInfo::Var2(_, v, _) => v,
        VarInfo::Var3(_, v, _, _) => v,
        VarInfo::Var0(_) => vstd::pervasive::unreached(),
    }
}

/// What evaluating an expression yields at the specification level: a
/// scalar view, a fatal fault, or a value that depends on the I/O state
/// (the channel-error predicate), which this specification leaves open.
pub ghost enum EvalView {
    Val(ScalarView),
    Fault,
    Ext,
}

/// The scalar content of a full view: arrays collapse to the marker.
pub open spec fn val_scalar(v: ValView) -> ScalarView {
    match v {
        ValView::Scalar(s) => s,
        ValView::Arr(_, _, _) => ScalarView::ArrMark,
    }
}

/// The result of a unary operator on an evaluated operand.
pub open spec fn unary_eval(op: UnaryOp, sv: ScalarView) -> EvalView {
    match op {
        UnaryOp::Plus => EvalView::Val(sv),
        UnaryOp::Minus => match int_of(sv) {
            Some(x) => EvalView::Val(ScalarView::Int(wrap_i32(-x))),
            None => EvalView::Fault,
        },
        UnaryOp::Not => match truthy_of(sv) {
            Some(t) => EvalView::Val(ScalarView::Bool(!t)),
            None => EvalView::Fault,
        },
    }
}

/// The result of a binary operator on two evaluated operands.
pub open spec fn binary_eval(op: BinOp, a: ScalarView, b: ScalarView) -> EvalView {
    match op {
        BinOp::PoW => EvalView::Fault,
        BinOp::Add => match add_view(a, b) {
            Some(sv) => EvalView::Val(sv),
            None => EvalView::Fault,
        },
        BinOp::Sub => match (int_of(a), int_of(b)) {
            (Some(x), Some(y)) => EvalView::Val(ScalarView::Int(wrap_i32(x - y))),
            _ => EvalView::Fault,
        },
        BinOp::Mul => match (int_of(a), int_of(b)) {
            (Some(x), Some(y)) => EvalView::Val(ScalarView::Int(wrap_i32(x * y))),
            _ => EvalView::Fault,
        },
        BinOp::Div => match (int_of(a), int_of(b)) {
            (Some(x), Some(y)) => if y == 0 {
                EvalView::Fault
            } else {
                EvalView::Val(ScalarView::Int(wrap_i32(div_trunc(x, y))))
            },
            _ => EvalView::Fault,
        },
        BinOp::Mod => match (int_of(a), int_of(b)) {
            (Some(x), Some(y)) => if y == 0 {
                EvalView::Fault
            } else {
                EvalView::Val(ScalarView::Int(wrap_i32(rem_trunc(x, y))))
            },
            _ => EvalView::Fault,
        },
        BinOp::Eq => match crate::ops::eq_view(a, b) {
            Some(e) => EvalView::Val(ScalarView::Bool(e)),
            None => EvalView::Fault,
        },
        BinOp::NotEq => match crate::ops::eq_view(a, b) {
            Some(e) => EvalView::Val(ScalarView::Bool(!e)),
            None => EvalView::Fault,
        },
        BinOp::Lower => match (int_of(a), int_of(b)) {
            (Some(x), Some(y)) => EvalView::Val(ScalarView::Bool(x < y)),
            _ => EvalView::Fault,
        },
        BinOp::LowerEq => match (int_of(a), int_of(b)) {
            (Some(x), Some(y)) => EvalView::Val(ScalarView::Bool(x <= y)),
            _ => EvalView::Fault,
        },
        BinOp::Greater => match (int_of(a), int_of(b)) {
            (Some(x), Some(y)) => EvalView::Val(ScalarView::Bool(x > y)),
            _ => EvalView::Fault,
        },
        BinOp::GreaterEq => match (int_of(a), int_of(b)) {
            (Some(x), Some(y)) => EvalView::Val(ScalarView::Bool(x >= y)),
            _ => EvalView::Fault,
        },
        BinOp::And => match (truthy_of(a), truthy_of(b)) {
            (Some(x), Some(y)) => EvalView::Val(ScalarView::Bool(x && y)),
            _ => EvalView::Fault,
        },
        BinOp::Or => match (truthy_of(a), truthy_of(b)) {
            (Some(x), Some(y)) => EvalView::Val(ScalarView::Bool(x || y)),
            _ => EvalView::Fault,
        },
    }
}

/// What an expression evaluates to against a frame's variables: literals
/// give their value, identifiers resolve through the innermost frame only,
/// array access subtracts one from the first index, the pure predefined
/// functions compute, the channel-error predicate depends on the I/O state,
/// and everything else of the catalog is a fault.
pub open spec fn spec_eval(m: Map<Seq<char>, ValView>, e: Expression) -> EvalView
    decreases e,
{
    match e {
        Expression::Const(v) => EvalView::Val(scalar_view(v)),
        Expression::Identifier(name) => if m.dom().contains(name@) {
            EvalView::Val(val_scalar(m[name@]))
        } else {
            EvalView::Fault
        },
        Expression::Parens(inner) => spec_eval(m, *inner),
        Expression::Unary(op, inner) => match spec_eval(m, *inner) {
            EvalView::Val(sv) => unary_eval(op, sv),
            EvalView::Fault => EvalView::Fault,
            EvalView::Ext => EvalView::Ext,
        },
        Expression::Binary(op, a, b) => match spec_eval(m, *a) {
            EvalView::Val(sa) => match spec_eval(m, *b) {
                EvalView::Val(sb) => binary_eval(op, sa, sb),
                EvalView::Fault => EvalView::Fault,
                EvalView::Ext => EvalView::Ext,
            },
            EvalView::Fault => EvalView::Fault,
            EvalView::Ext => EvalView::Ext,
        },
        Expression::FuncCall(op, args) => if op == FuncOp::Ferr {
            EvalView::Ext
        } else if op == FuncOp::Abs {
            if args.len() != 1 {
                EvalView::Fault
            } else {
                match spec_eval(m, args[0]) {
                    EvalView::Val(sv) => match int_of(sv) {
                        Some(x) => EvalView::Val(
                            ScalarView::Int(
                                wrap_i32(
                                    if x < 0 {
                                        -x
                                    } else {
                                        x
                                    },
                                ),
                            ),
                        ),
                        None => EvalView::Fault,
                    },
                    EvalView::Fault => EvalView::Fault,
                    EvalView::Ext => EvalView::Ext,
                }
            }
        } else if op == FuncOp::Len {
            if args.len() != 1 {
                EvalView::Fault
            } else {
                match spec_eval(m, args[0]) {
                    EvalView::Val(sv) => EvalView::Val(
                        ScalarView::Int(clamp_i32(render_of(sv).len() as int)),
                    ),
                    EvalView::Fault => EvalView::Fault,
                    EvalView::Ext => EvalView::Ext,
                }
            }
        } else {
            EvalView::Fault
        },
        Expression::Dim(name, idxs) => if !m.dom().contains(name@) || idxs.len() != 1 {
            EvalView::Fault
        } else {
            match spec_eval(m, idxs[0]) {
                EvalView::Val(sv) => match int_of(sv) {
                    Some(i) => match m[name@] {
                        ValView::Arr(d, _, elems) => if d == 1 && 1 <= i <= elems.len() {
                            EvalView::Val(elems[i - 1])
                        } else {
                            EvalView::Fault
                        },
                        ValView::Scalar(_) => EvalView::Fault,
                    },
                    None => EvalView::Fault,
                },
                EvalView::Fault => EvalView::Fault,
                EvalView::Ext => EvalView::Ext,
            }
        },
    }
}

/// Recursively evaluates an expression tree against the innermost frame;
/// see [`spec_eval`] for the result it must deliver.
pub fn evaluate_exp<IO: PCBoardIO>(interp: &Interpreter, io: &IO, expr: &Expression) -> (r:
    Result<VariableValue, Error>)
    requires
        interp.has_frames(),
    ensures
        match spec_eval(interp.cur_vals(), *expr) {
            EvalView::Val(sv) => r matches Ok(v) && scalar_view(v) == sv,
            EvalView::Fault => r is Err,
            EvalView::Ext => true,
        },
    decreases expr,
{
    match expr {
        Expression::Const(v) => Ok(v.duplicate()),
        Expression::Identifier(name) => {
            let fi = interp.cur_frame.len() - 1;
            match interp.cur_frame[fi].values.get(name) {
                Some(v) => {
                    proof {
                        assert(interp.cur_vals()[name@] == vv_view(
                            interp.top().values@[name@],
                        ));
                    }
                    Ok(v.duplicate())
                },
                None => Err(Error::VariableNotFound(name.clone())),
            }
        },
        Expression::Parens(inner) => evaluate_exp(interp, io, inner),
        Expression::Unary(op, inner) => {
            let v = evaluate_exp(interp, io, inner)?;
            match op {
                UnaryOp::Plus => Ok(v),
                UnaryOp::Minus => value_neg(&v),
                UnaryOp::Not => value_not(&v),
            }
        },
        Expression::Binary(op, a, b) => {
            let va = evaluate_exp(interp, io, a)?;
            let vb = evaluate_exp(interp, io, b)?;
            match op {
                BinOp::PoW => Err(Error::NotSupported),
                BinOp::Add => value_add(&va, &vb),
                BinOp::Sub => value_sub(&va, &vb),
                BinOp::Mul => value_mul(&va, &vb),
                BinOp::Div => value_div(&va, &vb),
                BinOp::Mod => value_mod(&va, &vb),
                BinOp::Eq => match value_eq(&va, &vb) {
                    Ok(e) => Ok(VariableValue::Boolean(e)),
                    Err(e) => Err(e),
                },
                BinOp::NotEq => match value_eq(&va, &vb) {
                    Ok(e) => Ok(VariableValue::Boolean(!e)),
                    Err(e) => Err(e),
                },
                BinOp::Lower => match value_lt(&va, &vb) {
                    Ok(c) => Ok(VariableValue::Boolean(c)),
                    Err(e) => Err(e),
                },
                BinOp::LowerEq => match value_lt(&vb, &va) {
                    Ok(c) => Ok(VariableValue::Boolean(!c)),
                    Err(e) => Err(e),
                },
                BinOp::Greater => match value_lt(&vb, &va) {
                    Ok(c) => Ok(VariableValue::Boolean(c)),
                    Err(e) => Err(e),
                },
                BinOp::GreaterEq => match value_lt(&va, &vb) {
                    Ok(c) => Ok(VariableValue::Boolean(!c)),
                    Err(e) => Err(e),
                },
                BinOp::And => {
                    let ta = value_truthy(&va)?;
                    let tb = value_truthy(&vb)?;
                    Ok(VariableValue::Boolean(ta && tb))
                },
                BinOp::Or => {
                    let ta = value_truthy(&va)?;
                    let tb = value_truthy(&vb)?;
                    Ok(VariableValue::Boolean(ta || tb))
                },
            }
        },
        Expression::FuncCall(op, args) => {
            match op {
                FuncOp::Ferr => {
                    if args.len() != 1 {
                        return Err(Error::WrongParameterCount);
                    }
                    let v = evaluate_exp(interp, io, &args[0])?;
                    let ch = get_int(&v)?;
                    if ch < 0 || ch > 7 {
                        return Err(Error::FileChannelOutOfBounds(ch));
                    }
                    Ok(VariableValue::Boolean(io.ferr(ch as usize)))
                },
                FuncOp::Abs => {
                    if args.len() != 1 {
                        return Err(Error::WrongParameterCount);
                    }
                    let v = evaluate_exp(interp, io, &args[0])?;
                    let x = get_int(&v)?;
                    let mag: i64 = if x < 0 {
                        -(x as i64)
                    } else {
                        x as i64
                    };
                    Ok(VariableValue::Integer(crate::values::wrap32_exec(mag)))
                },
                FuncOp::Len => {
                    if args.len() != 1 {
                        return Err(Error::WrongParameterCount);
                    }
                    let v = evaluate_exp(interp, io, &args[0])?;
                    let s = get_string(&v);
                    let l = vstd::string::StrSliceExecFns::unicode_len(s.as_str());
                    if l > 0x7FFF_FFFFusize {
                        Ok(VariableValue::Integer(i32::MAX))
                    } else {
                        Ok(VariableValue::Integer(l as i32))
                    }
                },
                _ => Err(Error::NotSupported),
            }
        },
        Expression::Dim(name, idxs) => {
            if idxs.len() != 1 {
                return Err(Error::NotSupported);
            }
            let idx_value = evaluate_exp(interp, io, &idxs[0])?;
            let i = get_int(&idx_value)?;
            let fi = interp.cur_frame.len() - 1;
            match interp.cur_frame[fi].values.get(name) {
                Some(v) => {
                    proof {
                        assert(interp.cur_vals()[name@] == vv_view(
                            interp.top().values@[name@],
                        ));
                    }
                    match v {
                        VariableValue::Dim1(_, data) => {
                            if 1 <= i && (i as usize) <= data.len() {
                                let elem = data[(i as usize) - 1].duplicate_scalar();
                                proof {
                                    match vv_view(interp.top().values@[name@]) {
                                        ValView::Arr(d, t, elems) => {
                                            assert(elems[i - 1] == scalar_view(
                                                data@[i - 1],
                                            ));
                                        },
                                        _ => {
                                            assert(false);
                                        },
                                    }
                                }
                                Ok(elem)
                            } else {
                                Err(Error::ArrayIndexOutOfBounds(i))
                            }
                        },
                        _ => Err(Error::TypeMismatch),
                    }
                },
                None => Err(Error::VariableNotFound(name.clone())),
            }
        },
    }
}

/// The truth an if-condition carries: a true-sentinel Integer or a Boolean;
/// any other value kind is a fatal type error.
pub open spec fn cond_truth_of(sv: ScalarView) -> Option<bool> {
    match sv {
        ScalarView::Int(i) => Some(i == crate::values::PPL_TRUE as int),
        ScalarView::Bool(b) => Some(b),
        _ => None,
    }
}

/// Evaluates an if-condition's truth; see [`cond_truth_of`].
fn cond_truth(v: &VariableValue) -> (r: Result<bool, Error>)
    ensures
        match cond_truth_of(scalar_view(*v)) {
            Some(t) => r matches Ok(x) && x == t,
            None => r matches Err(Error::TypeMismatch),
        },
{
    match v {
        VariableValue::Integer(x) => Ok(*x == crate::values::PPL_TRUE),
        VariableValue::Boolean(b) => Ok(*b),
        _ => Err(Error::TypeMismatch),
    }
}

/// Every frame's bookkeeping is sound against the program: procedure
/// frames point at real implementations, return addresses and label targets
/// stay below the pointer ceiling, and every frame but the innermost rests
/// at a statement it can resume past.
pub open spec fn frames_wf(interp: &Interpreter, prg: &Program) -> bool {
    forall|i: int|
        0 <= i < interp.cur_frame@.len() ==> {
            let f = #[trigger] interp.cur_frame@[i];
            &&& match f.block_id {
                BlockId::Main => true,
                BlockId::Procedure(p) => p < prg.procedure_implementations@.len(),
            }
            &&& (forall|j: int| 0 <= j < f.gosub_stack@.len() ==> f.gosub_stack@[j] < usize::MAX)
            &&& (forall|l: Seq<char>|
                f.label_table@.contains_key(l) ==> f.label_table@[l] < usize::MAX)
            &&& (i < interp.cur_frame@.len() - 1 ==> f.cur_ptr < usize::MAX)
        }
}

/// Every label target of a statement list stays below the pointer ceiling.
proof fn lemma_label_map_bounded(stmts: Seq<Statement>)
    requires
        stmts.len() <= usize::MAX,
    ensures
        forall|l: Seq<char>|
            label_map(stmts).contains_key(l) ==> label_map(stmts)[l] < usize::MAX,
{
    assert forall|l: Seq<char>| label_map(stmts).contains_key(l) implies label_map(stmts)[l]
        < usize::MAX by {
        lemma_label_map_characterization(stmts, l);
    }
}

/// The name a procedure declaration carries.
pub open spec fn proc_decl_name(d: Declaration) -> Option<Seq<char>> {
    match d {
        Declaration::Procedure(name, _) => Some(name@),
        _ => None,
    }
}

/// The formal parameter declarations of a procedure declaration.
pub open spec fn proc_formals(d: Declaration) -> Seq<Declaration> {
    match d {
        Declaration::Procedure(_, formals) => formals@,
        _ => Seq::empty(),
    }
}

/// The index of the first procedure implementation carrying the name, from
/// position `from` on.
pub open spec fn first_proc_index(
    impls: Seq<crate::ast::ProcedureImpl>,
    name: Seq<char>,
    from: int,
) -> Option<int>
    decreases impls.len() - from,
{
    if from < 0 || from >= impls.len() {
        None
    } else if proc_decl_name(impls[from].declaration) == Some(name) {
        Some(from)
    } else {
        first_proc_index(impls, name, from + 1)
    }
}

/// Every actual argument has a matching well-formed formal and evaluates to
/// a value whose conversion to the declared parameter type is a scalar.
pub open spec fn params_bindable(
    ctx: Map<Seq<char>, ValView>,
    formals: Seq<Declaration>,
    args: Seq<Expression>,
) -> bool {
    forall|k: int|
        0 <= k < args.len() ==> {
            &&& k < formals.len()
            &&& match #[trigger] formals[k] {
                Declaration::Variable(t, infos) => infos@.len() >= 1 && match spec_eval(
                    ctx,
                    args[k],
                ) {
                    EvalView::Val(sv) => !(crate::values::convert_view(t, sv) is ArrMark),
                    _ => false,
                },
                _ => false,
            }
        }
}

/// The fresh frame's parameter bindings: each formal name bound, in order,
/// to the converted value of its actual argument.
pub open spec fn params_map(
    ctx: Map<Seq<char>, ValView>,
    formals: Seq<Declaration>,
    args: Seq<Expression>,
    k: int,
) -> Map<Seq<char>, ValView>
    decreases k,
{
    if k <= 0 {
        Map::empty()
    } else {
        let m = params_map(ctx, formals, args, k - 1);
        if k - 1 < formals.len() {
            match formals[k - 1] {
                Declaration::Variable(t, infos) => if infos@.len() >= 1 {
                    match spec_eval(ctx, args[k - 1]) {
                        EvalView::Val(sv) => m.insert(
                            var_info_name(infos@[0]),
                            ValView::Scalar(crate::values::convert_view(t, sv)),
                        ),
                        _ => m,
                    }
                } else {
                    m
                },
                _ => m,
            }
        } else {
            m
        }
    }
}

/// Locates a user-defined procedure by name, scanning the implementations
/// in order.
fn find_procedure(prg: &Program, name: &String) -> (r: Option<usize>)
    ensures
        match r {
            Some(i) => i < prg.procedure_implementations@.len() && proc_decl_name(
                prg.procedure_implementations@[i as int].declaration,
            ) == Some(name@) && first_proc_index(prg.procedure_implementations@, name@, 0)
                == Some(i as int),
            None => first_proc_index(prg.procedure_implementations@, name@, 0) is None
                && forall|i: int|
                0 <= i < prg.procedure_implementations@.len() ==> proc_decl_name(
                    (#[trigger] prg.procedure_implementations@[i]).declaration,
                ) != Some(name@),
        },
{
    let n = prg.procedure_implementations.len();
    let mut i: usize = 0;
    while i < n
        invariant
            n == prg.procedure_implementations@.len(),
            i <= n,
            forall|k: int|
                0 <= k < i ==> proc_decl_name(
                    (#[trigger] prg.procedure_implementations@[k]).declaration,
                ) != Some(name@),
            first_proc_index(prg.procedure_implementations@, name@, 0) == first_proc_index(
                prg.procedure_implementations@,
                name@,
                i as int,
            ),
        decreases n - i,
    {
        match &prg.procedure_implementations[i].declaration {
            Declaration::Procedure(pname, _) => {
                let hit = pname.eq(name);
                if hit {
                    return Some(i);
                }
            },
            _ => {},
        }
        i = i + 1;
    }
    None
}

/// Splits a line at every blank or semicolon, keeping empty pieces, as the
/// tokenizer built-in does.
pub open spec fn split_tokens(s: Seq<char>, i: int, cur: Seq<char>) -> Seq<Seq<char>>
    decreases s.len() - i,
{
    if i < 0 || i >= s.len() {
        seq![cur]
    } else if s[i] == ' ' || s[i] == ';' {
        seq![cur] + split_tokens(s, i + 1, Seq::empty())
    } else {
        split_tokens(s, i + 1, cur.push(s[i]))
    }
}

/// Splits the given text into the session's token list: pieces between
/// blanks and semicolons, in order, empty pieces kept.
pub fn tokenize(interp: &mut Interpreter, text: &String)
    ensures
        final(interp).cur_frame@ == old(interp).cur_frame@,
        final(interp).is_running == old(interp).is_running,
        final(interp).icb_data.users@ == old(interp).icb_data.users@,
        final(interp).icb_data.nodes@ == old(interp).icb_data.nodes@,
        final(interp).icb_data.pcb_data == old(interp).icb_data.pcb_data,
        final(interp).cur_user == old(interp).cur_user,
        final(interp).current_user == old(interp).current_user,
        final(interp).pcb_node == old(interp).pcb_node,
        Seq::new(final(interp).cur_tokens@.len(), |k: int| final(interp).cur_tokens@[k]@)
            == split_tokens(text@, 0, Seq::empty()),
{
    let mut tokens: Vec<String> = Vec::new();
    let n = vstd::string::StrSliceExecFns::unicode_len(text.as_str());
    let mut i: usize = 0;
    let mut start: usize = 0;
    proof {
        assert(text@.subrange(0, 0) =~= Seq::<char>::empty());
    }
    while i < n
        invariant
            n == text@.len(),
            start <= i <= n,
            split_tokens(text@, 0, Seq::empty()) == Seq::new(
                tokens@.len(),
                |k: int| tokens@[k]@,
            ) + split_tokens(text@, i as int, text@.subrange(start as int, i as int)),
        decreases n - i,
    {
        let c = vstd::string::StrSliceExecFns::get_char(text.as_str(), i);
        if c == ' ' || c == ';' {
            let ghost cur = text@.subrange(start as int, i as int);
            proof {
                assert(split_tokens(text@, i as int, cur) == seq![cur] + split_tokens(
                    text@,
                    i as int + 1,
                    Seq::empty(),
                ));
            }
            let piece = vstd::string::StrSliceExecFns::substring_char(
                text.as_str(),
                start,
                i,
            ).to_owned();
            let ghost pre = Seq::new(tokens@.len(), |k: int| tokens@[k]@);
            tokens.push(piece);
            start = i + 1;
            proof {
                assert(Seq::new(tokens@.len(), |k: int| tokens@[k]@) =~= pre + seq![cur]);
                assert((pre + seq![cur]) + split_tokens(text@, i as int + 1, Seq::empty())
                    =~= pre + split_tokens(text@, i as int, cur));
                assert(text@.subrange(i as int + 1, i as int + 1) =~= Seq::<char>::empty());
            }
        } else {
            proof {
                let cur = text@.subrange(start as int, i as int);
                assert(split_tokens(text@, i as int, cur) == split_tokens(
                    text@,
                    i as int + 1,
                    cur.push(text@[i as int]),
                ));
                assert(cur.push(text@[i as int]) =~= text@.subrange(
                    start as int,
                    i as int + 1,
                ));
            }
        }
        i = i + 1;
    }
    let ghost cur = text@.subrange(start as int, n as int);
    proof {
        assert(split_tokens(text@, n as int, cur) == seq![cur]);
    }
    let piece = vstd::string::StrSliceExecFns::substring_char(text.as_str(), start, n).to_owned();
    let ghost pre = Seq::new(tokens@.len(), |k: int| tokens@[k]@);
    tokens.push(piece);
    proof {
        assert(Seq::new(tokens@.len(), |k: int| tokens@[k]@) =~= pre + seq![cur]);
    }
    interp.cur_tokens = tokens;
}

/// The interpreter's own state (frames and host session copy) is untouched;
/// only the terminal sink or the channel provider may have moved.
pub open spec fn interp_unchanged(a: &Interpreter, b: &Interpreter) -> bool {
    b.cur_frame@ == a.cur_frame@ && same_host_state(a, b)
}

/// The integer a channel argument evaluates to, when the specification can
/// tell (`None` when the evaluation faults or depends on the I/O state).
pub open spec fn channel_of(m: Map<Seq<char>, ValView>, e: Expression) -> Option<int> {
    match spec_eval(m, e) {
        EvalView::Val(sv) => int_of(sv),
        _ => None,
    }
}

/// Every argument from position `from` on evaluates to a value.
pub open spec fn args_all_values(m: Map<Seq<char>, ValView>, args: Seq<Expression>, from: int) -> bool {
    forall|k: int| from <= k < args.len() ==> spec_eval(m, #[trigger] args[k]) is Val
}

/// The frame stack's control bookkeeping (count, cursors, return stacks,
/// label tables, block identities) is untouched.
pub open spec fn frames_control_eq(a: &Interpreter, b: &Interpreter) -> bool {
    &&& a.cur_frame@.len() == b.cur_frame@.len()
    &&& forall|i: int|
        0 <= i < a.cur_frame@.len() ==> {
            let fa = a.cur_frame@[i];
            let fb = #[trigger] b.cur_frame@[i];
            &&& fb.cur_ptr == fa.cur_ptr
            &&& fb.gosub_stack@ == fa.gosub_stack@
            &&& fb.label_table@ == fa.label_table@
            &&& fb.block_id == fa.block_id
        }
}

/// The destination variable a channel read names.
pub open spec fn fget_target_name(e: Expression) -> Seq<char> {
    match e {
        Expression::Identifier(name) => name@,
        Expression::Dim(name, _) => name@,
        _ => Seq::empty(),
    }
}

/// The declared type a name converts into; `Unknown` for an undeclared one.
pub open spec fn declared_type_of(decls: Seq<Declaration>, name: Seq<char>) -> VariableType {
    match find_var_decl(decls, name) {
        Some(t0) => t0,
        None => VariableType::Unknown,
    }
}

/// The rendered text of an argument that evaluates to a value.
pub open spec fn arg_text(m: Map<Seq<char>, ValView>, e: Expression) -> Seq<char> {
    match spec_eval(m, e) {
        EvalView::Val(sv) => render_of(sv),
        _ => Seq::empty(),
    }
}

/// How a node-table write changes the named entry: status from the first
/// character of a nonempty status text, the caller name, city and operation
/// texts stored, everything else kept.
pub open spec fn wrunet_updated(
    before: Node,
    after: Node,
    stat: Seq<char>,
    name: Seq<char>,
    city: Seq<char>,
    operation: Seq<char>,
) -> bool {
    &&& after.status == (if stat.len() > 0 {
        stat[0]
    } else {
        before.status
    })
    &&& after.name@ == name
    &&& after.city@ == city
    &&& after.operation@ == operation
    &&& after.mail_waiting == before.mail_waiting
    &&& after.pager == before.pager
    &&& after.message@ == before.message@
    &&& after.channel == before.channel
    &&& after.last_update@ == before.last_update@
}

/// Evaluates one argument and coerces it to an integer.
fn int_arg<IO: PCBoardIO>(interp: &Interpreter, io: &IO, params: &Vec<Expression>, i: usize) -> (r:
    Result<i32, Error>)
    requires
        interp.has_frames(),
        i < params@.len(),
    ensures
        match spec_eval(interp.cur_vals(), params@[i as int]) {
            EvalView::Val(sv) => match int_of(sv) {
                Some(x) => r matches Ok(v) && v as int == x,
                None => r is Err,
            },
            EvalView::Fault => r is Err,
            EvalView::Ext => true,
        },
{
    let v = evaluate_exp(interp, io, &params[i])?;
    match get_int(&v) {
        Ok(x) => Ok(x),
        Err(_) => Err(Error::ParameterIntegerExpected(i as u32)),
    }
}

/// Evaluates one argument and renders it as text.
fn str_arg<IO: PCBoardIO>(interp: &Interpreter, io: &IO, params: &Vec<Expression>, i: usize) -> (r:
    Result<String, Error>)
    requires
        interp.has_frames(),
        i < params@.len(),
    ensures
        match spec_eval(interp.cur_vals(), params@[i as int]) {
            EvalView::Val(sv) => r matches Ok(s) && s@ == render_of(sv),
            EvalView::Fault => r is Err,
            EvalView::Ext => true,
        },
{
    let v = evaluate_exp(interp, io, &params[i])?;
    Ok(get_string(&v))
}

/// Evaluates a channel argument and rejects an index outside the 8 fixed
/// slots as a fatal error.
fn channel_arg<IO: PCBoardIO>(interp: &Interpreter, io: &IO, params: &Vec<Expression>, i: usize) -> (r:
    Result<usize, Error>)
    requires
        interp.has_frames(),
        i < params@.len(),
    ensures
        r matches Ok(ch) ==> ch < 8,
        match channel_of(interp.cur_vals(), params@[i as int]) {
            Some(c) => if 0 <= c <= 7 {
                r matches Ok(ch) && ch as int == c
            } else {
                r matches Err(Error::FileChannelOutOfBounds(_))
            },
            None => true,
        },
{
    let c = int_arg(interp, io, params, i)?;
    if c < 0 || c > 7 {
        return Err(Error::FileChannelOutOfBounds(c));
    }
    Ok(c as usize)
}

/// Dispatches one predefined procedure: the implemented operations carry
/// the interpreter's file, user, node, output and timing behaviour; the
/// keyboard, modem and key buffer flushes are documented no-ops; every
/// other listed operation fails as explicitly unsupported. Wrong argument
/// counts and wrong argument kinds are fatal errors.
pub fn call_predefined_procedure<C: ExecutionContext, IO: PCBoardIO>(
    interp: &mut Interpreter,
    prg: &Program,
    ctx: &mut C,
    io: &mut IO,
    op: ProcOp,
    params: &Vec<Expression>,
) -> (r: Result<(), Error>)
    requires
        old(interp).has_frames(),
        frames_wf(old(interp), prg),
    ensures
        final(interp).has_frames(),
        frames_wf(final(interp), prg),
        frames_control_eq(old(interp), final(interp)),
        forall|i: int|
            0 <= i < old(interp).cur_frame@.len() - 1 ==> final(interp).cur_frame@[i] == old(interp).cur_frame@[i],
        final(interp).is_running == old(interp).is_running,
        match op {
            ProcOp::KbdFlush | ProcOp::MdmFlush | ProcOp::KeyFlush => r is Ok
                && final(interp).cur_frame@ == old(interp).cur_frame@
                && same_host_state(old(interp), final(interp)),
            ProcOp::GetUser => params@.len() == 0 && old(interp).cur_user < old(interp).icb_data.users@.len() ==> {
                &&& r is Ok
                &&& final(interp).cur_vals() == mirrored_vals(
                    old(interp).cur_vals(),
                    old(interp).icb_data.users@[old(interp).cur_user as int],
                )
                &&& final(interp).current_user == Some(
                    old(interp).icb_data.users@[old(interp).cur_user as int],
                )
            },
            ProcOp::PutUser => params@.len() == 0 && old(interp).current_user is None ==> r
                is Ok && final(interp).icb_data.users@ == old(interp).icb_data.users@,
            ProcOp::GetAltUser => params@.len() == 1 ==> match spec_eval(
                old(interp).cur_vals(),
                params@[0],
            ) {
                EvalView::Val(sv) => match int_of(sv) {
                    Some(x) => if 0 <= x < old(interp).icb_data.users@.len() {
                        &&& r is Ok
                        &&& final(interp).cur_vals() == mirrored_vals(
                            old(interp).cur_vals(),
                            old(interp).icb_data.users@[x],
                        )
                        &&& final(interp).current_user == old(interp).current_user
                    } else {
                        r matches Err(Error::UserIndexOutOfBounds(_))
                    },
                    None => r is Err,
                },
                EvalView::Fault => r is Err,
                EvalView::Ext => true,
            },
            ProcOp::Cls | ProcOp::ClrEol => interp_unchanged(old(interp), final(interp)),
            ProcOp::FCreate | ProcOp::FOpen | ProcOp::FAppend => {
                &&& interp_unchanged(old(interp), final(interp))
                &&& (params@.len() == 4 && (match channel_of(old(interp).cur_vals(), params@[0]) {
                    Some(c) => 0 <= c <= 7,
                    None => false,
                }) && args_all_values(old(interp).cur_vals(), params@, 1) && (match spec_eval(
                    old(interp).cur_vals(),
                    params@[2],
                ) {
                    EvalView::Val(sv) => int_of(sv) is Some,
                    _ => false,
                }) && (match spec_eval(old(interp).cur_vals(), params@[3]) {
                    EvalView::Val(sv) => int_of(sv) is Some,
                    _ => false,
                }) ==> r is Ok)
            },
            ProcOp::FClose => {
                &&& interp_unchanged(old(interp), final(interp))
                &&& (params@.len() == 1 ==> match channel_of(old(interp).cur_vals(), params@[0]) {
                    Some(c) => if c == -1 || 0 <= c <= 7 {
                        r is Ok
                    } else {
                        r matches Err(Error::FileChannelOutOfBounds(_))
                    },
                    None => true,
                })
            },
            ProcOp::FRewind => {
                &&& interp_unchanged(old(interp), final(interp))
                &&& (params@.len() == 1 && (match channel_of(old(interp).cur_vals(), params@[0]) {
                    Some(c) => 0 <= c <= 7,
                    None => false,
                }) ==> r is Ok)
            },
            ProcOp::FPut | ProcOp::FPutLn => {
                &&& interp_unchanged(old(interp), final(interp))
                &&& (params@.len() >= 1 && (match channel_of(old(interp).cur_vals(), params@[0]) {
                    Some(c) => 0 <= c <= 7,
                    None => false,
                }) && args_all_values(old(interp).cur_vals(), params@, 1) ==> r is Ok)
            },
            ProcOp::FGet => {
                &&& same_host_state(old(interp), final(interp))
                &&& (params@.len() == 2 && (match channel_of(old(interp).cur_vals(), params@[0]) {
                    Some(c) => 0 <= c <= 7,
                    None => false,
                }) && (params@[1] is Identifier || params@[1] is Dim) ==> {
                    &&& r is Ok
                    &&& exists|line: Seq<char>|
                        final(interp).cur_vals() == old(interp).cur_vals().insert(
                            fget_target_name(params@[1]),
                            ValView::Scalar(
                                #[trigger] crate::values::convert_view(
                                    declared_type_of(
                                        prg.declarations@,
                                        fget_target_name(params@[1]),
                                    ),
                                    ScalarView::StrV(line),
                                ),
                            ),
                        )
                })
            },
            ProcOp::Delay => params@.len() == 1 ==> match spec_eval(
                old(interp).cur_vals(),
                params@[0],
            ) {
                EvalView::Val(sv) => match int_of(sv) {
                    Some(_) => r is Ok && final(interp).cur_frame@ == old(interp).cur_frame@
                        && same_host_state(old(interp), final(interp)),
                    None => r is Err,
                },
                EvalView::Fault => r is Err,
                EvalView::Ext => true,
            },
            ProcOp::RdUnet => params@.len() == 1 ==> match spec_eval(
                old(interp).cur_vals(),
                params@[0],
            ) {
                EvalView::Val(sv) => match int_of(sv) {
                    Some(x) => if 0 <= x < old(interp).icb_data.nodes@.len() {
                        &&& r is Ok
                        &&& final(interp).pcb_node == Some(old(interp).icb_data.nodes@[x])
                        &&& final(interp).cur_frame@ == old(interp).cur_frame@
                        &&& final(interp).icb_data.nodes@ == old(interp).icb_data.nodes@
                        &&& final(interp).icb_data.users@ == old(interp).icb_data.users@
                        &&& final(interp).icb_data.pcb_data == old(interp).icb_data.pcb_data
                        &&& final(interp).cur_user == old(interp).cur_user
                        &&& final(interp).current_user == old(interp).current_user
                        &&& final(interp).cur_tokens@ == old(interp).cur_tokens@
                    } else {
                        r matches Err(Error::NodeIndexOutOfBounds(_)) && interp_unchanged(
                            old(interp),
                            final(interp),
                        )
                    },
                    None => r is Err,
                },
                EvalView::Fault => r is Err,
                EvalView::Ext => true,
            },
            ProcOp::DispStr | ProcOp::MPrint | ProcOp::MPrintLn | ProcOp::SPrint
                | ProcOp::SPrintLn | ProcOp::KbdStuff | ProcOp::AnsiPos => interp_unchanged(
                old(interp),
                final(interp),
            ),
            ProcOp::WrUnet => {
                &&& final(interp).cur_frame@ == old(interp).cur_frame@
                &&& final(interp).is_running == old(interp).is_running
                &&& final(interp).icb_data.users@ == old(interp).icb_data.users@
                &&& final(interp).icb_data.pcb_data == old(interp).icb_data.pcb_data
                &&& final(interp).cur_user == old(interp).cur_user
                &&& final(interp).current_user == old(interp).current_user
                &&& final(interp).pcb_node == old(interp).pcb_node
                &&& final(interp).cur_tokens@ == old(interp).cur_tokens@
                &&& (params@.len() == 6 && args_all_values(old(interp).cur_vals(), params@, 0)
                    ==> match channel_of(old(interp).cur_vals(), params@[0]) {
                    Some(node) => if 0 <= node < old(interp).icb_data.nodes@.len() {
                        &&& r is Ok
                        &&& final(interp).icb_data.nodes@.len() == old(interp).icb_data.nodes@.len()
                        &&& (forall|j: int|
                            0 <= j < old(interp).icb_data.nodes@.len() && j != node
                                ==> #[trigger] final(interp).icb_data.nodes@[j] == old(interp).icb_data.nodes@[j])
                        &&& wrunet_updated(
                            old(interp).icb_data.nodes@[node],
                            final(interp).icb_data.nodes@[node],
                            arg_text(old(interp).cur_vals(), params@[1]),
                            arg_text(old(interp).cur_vals(), params@[2]),
                            arg_text(old(interp).cur_vals(), params@[3]),
                            arg_text(old(interp).cur_vals(), params@[4]),
                        )
                    } else {
                        r matches Err(Error::NodeIndexOutOfBounds(_))
                    },
                    None => r is Err,
                })
            },
            ProcOp::Tokenize => {
                &&& final(interp).cur_frame@ == old(interp).cur_frame@
                &&& final(interp).is_running == old(interp).is_running
                &&& final(interp).icb_data.users@ == old(interp).icb_data.users@
                &&& final(interp).icb_data.nodes@ == old(interp).icb_data.nodes@
                &&& final(interp).icb_data.pcb_data == old(interp).icb_data.pcb_data
                &&& final(interp).cur_user == old(interp).cur_user
                &&& final(interp).current_user == old(interp).current_user
                &&& final(interp).pcb_node == old(interp).pcb_node
                &&& (params@.len() == 1 ==> match spec_eval(old(interp).cur_vals(), params@[0]) {
                    EvalView::Val(sv) => r is Ok && Seq::new(
                        final(interp).cur_tokens@.len(),
                        |k: int| final(interp).cur_tokens@[k]@,
                    ) == split_tokens(render_of(sv), 0, Seq::empty()),
                    EvalView::Fault => r is Err,
                    EvalView::Ext => true,
                })
            },
            _ => r matches Err(Error::NotSupported),
        },
{
    match op {
        ProcOp::Cls => {
            proof {
                reveal_strlit("\x1B[2J");
            }
            ctx.print("\x1B[2J")?;
            Ok(())
        },
        ProcOp::ClrEol => {
            proof {
                reveal_strlit("\x1B[K");
            }
            ctx.print("\x1B[K")?;
            Ok(())
        },
        ProcOp::FCreate => {
            if params.len() != 4 {
                return Err(Error::WrongParameterCount);
            }
            let channel = channel_arg(interp, io, params, 0)?;
            let file = str_arg(interp, io, params, 1)?;
            let am = int_arg(interp, io, params, 2)?;
            let sm = int_arg(interp, io, params, 3)?;
            io.fcreate(channel, &file, am, sm);
            Ok(())
        },
        ProcOp::FOpen => {
            if params.len() != 4 {
                return Err(Error::WrongParameterCount);
            }
            let channel = channel_arg(interp, io, params, 0)?;
            let file = str_arg(interp, io, params, 1)?;
            let am = int_arg(interp, io, params, 2)?;
            let sm = int_arg(interp, io, params, 3)?;
            io.fopen(channel, &file, am, sm);
            Ok(())
        },
        ProcOp::FAppend => {
            if params.len() != 4 {
                return Err(Error::WrongParameterCount);
            }
            let channel = channel_arg(interp, io, params, 0)?;
            let file = str_arg(interp, io, params, 1)?;
            let am = int_arg(interp, io, params, 2)?;
            let sm = int_arg(interp, io, params, 3)?;
            io.fappend(channel, &file, am, sm);
            Ok(())
        },
        ProcOp::FClose => {
            if params.len() != 1 {
                return Err(Error::WrongParameterCount);
            }
            let c = int_arg(interp, io, params, 0)?;
            if c == -1 {
                // The line-reading helpers hand this reserved sentinel in;
                // closing it is a no-op.
                return Ok(());
            }
            if c < 0 || c > 7 {
                return Err(Error::FileChannelOutOfBounds(c));
            }
            io.fclose(c as usize);
            Ok(())
        },
        ProcOp::FGet => {
            if params.len() != 2 {
                return Err(Error::WrongParameterCount);
            }
            let channel = channel_arg(interp, io, params, 0)?;
            let var_name: String = match &params[1] {
                Expression::Identifier(name) => name.clone(),
                Expression::Dim(name, _) => name.clone(),
                _ => {
                    return Err(Error::ParameterStringExpected(1));
                },
            };
            let line = io.fget(channel);
            let var_type = prg.get_var_type(&var_name);
            let ghost gname: Seq<char> = var_name@;
            let ghost gline: Seq<char> = line@;
            let value = VariableValue::Str(line);
            let converted = crate::values::convert_to(var_type, &value);
            proof {
                assert(!(crate::values::convert_view(var_type, ScalarView::StrV(gline))
                    is ArrMark));
            }
            let mut frame = take_top(interp);
            proof {
                lemma_vals_view_insert(frame.values@, gname, converted);
            }
            frame.values.insert(var_name, converted);
            put_top(interp, frame);
            proof {
                assert(gname == fget_target_name(params@[1]));
                assert(var_type == declared_type_of(prg.declarations@, gname));
                assert(final(interp).cur_vals() == old(interp).cur_vals().insert(
                    gname,
                    ValView::Scalar(
                        crate::values::convert_view(
                            declared_type_of(prg.declarations@, gname),
                            ScalarView::StrV(gline),
                        ),
                    ),
                ));
            }
            Ok(())
        },
        ProcOp::FPut => {
            if params.len() < 1 {
                return Err(Error::WrongParameterCount);
            }
            let channel = channel_arg(interp, io, params, 0)?;
            let mut i: usize = 1;
            while i < params.len()
                invariant
                    op == ProcOp::FPut,
                    interp.has_frames(),
                    frames_wf(interp, prg),
                    interp.cur_frame@ == old(interp).cur_frame@,
                    same_host_state(old(interp), interp),
                    channel < 8,
                decreases params@.len() - i,
            {
                let text = str_arg(interp, io, params, i)?;
                io.fput(channel, text);
                i = i + 1;
            }
            Ok(())
        },
        ProcOp::FPutLn => {
            if params.len() < 1 {
                return Err(Error::WrongParameterCount);
            }
            let channel = channel_arg(interp, io, params, 0)?;
            let mut i: usize = 1;
            while i < params.len()
                invariant
                    op == ProcOp::FPutLn,
                    interp.has_frames(),
                    frames_wf(interp, prg),
                    interp.cur_frame@ == old(interp).cur_frame@,
                    same_host_state(old(interp), interp),
                    channel < 8,
                decreases params@.len() - i,
            {
                let text = str_arg(interp, io, params, i)?;
                io.fput(channel, text);
                i = i + 1;
            }
            proof {
                reveal_strlit("\n");
            }
            io.fput(channel, "\n".to_owned());
            Ok(())
        },
        ProcOp::FRewind => {
            if params.len() != 1 {
                return Err(Error::WrongParameterCount);
            }
            let channel = channel_arg(interp, io, params, 0)?;
            io.frewind(channel);
            Ok(())
        },
        ProcOp::GetUser => {
            if params.len() != 0 {
                return Err(Error::WrongParameterCount);
            }
            getuser(interp)
        },
        ProcOp::PutUser => {
            if params.len() != 0 {
                return Err(Error::WrongParameterCount);
            }
            putuser(interp)
        },
        ProcOp::GetAltUser => {
            if params.len() != 1 {
                return Err(Error::WrongParameterCount);
            }
            let idx = int_arg(interp, io, params, 0)?;
            if idx < 0 {
                return Err(Error::UserIndexOutOfBounds(idx));
            }
            getaltuser(interp, idx as usize)
        },
        ProcOp::Delay => {
            if params.len() != 1 {
                return Err(Error::WrongParameterCount);
            }
            let ticks = int_arg(interp, io, params, 0)?;
            if ticks > 0 {
                let ms = delay_ms(ticks);
                ctx.sleep(ms);
            }
            Ok(())
        },
        ProcOp::DispStr | ProcOp::MPrint | ProcOp::KbdStuff => {
            if params.len() != 1 {
                return Err(Error::WrongParameterCount);
            }
            let text = str_arg(interp, io, params, 0)?;
            ctx.print(text.as_str())?;
            Ok(())
        },
        ProcOp::MPrintLn => {
            if params.len() != 1 {
                return Err(Error::WrongParameterCount);
            }
            let text = str_arg(interp, io, params, 0)?;
            ctx.print(text.as_str())?;
            proof {
                reveal_strlit("\n");
            }
            ctx.print("\n")?;
            Ok(())
        },
        ProcOp::SPrint => {
            if params.len() != 1 {
                return Err(Error::WrongParameterCount);
            }
            let text = str_arg(interp, io, params, 0)?;
            ctx.sprint(text.as_str())?;
            Ok(())
        },
        ProcOp::SPrintLn => {
            if params.len() != 1 {
                return Err(Error::WrongParameterCount);
            }
            let text = str_arg(interp, io, params, 0)?;
            ctx.sprint(text.as_str())?;
            proof {
                reveal_strlit("\n");
            }
            ctx.sprint("\n")?;
            Ok(())
        },
        ProcOp::AnsiPos => {
            if params.len() != 2 {
                return Err(Error::WrongParameterCount);
            }
            let x = int_arg(interp, io, params, 0)?;
            let y = int_arg(interp, io, params, 1)?;
            let x0 = crate::values::wrap32_exec((x as i64) - 1);
            let y0 = crate::values::wrap32_exec((y as i64) - 1);
            ctx.gotoxy(x0, y0)?;
            Ok(())
        },
        ProcOp::RdUnet => {
            if params.len() != 1 {
                return Err(Error::WrongParameterCount);
            }
            let node = int_arg(interp, io, params, 0)?;
            if node < 0 || node as usize >= interp.icb_data.nodes.len() {
                return Err(Error::NodeIndexOutOfBounds(node));
            }
            let picked = interp.icb_data.nodes[node as usize].duplicate();
            interp.pcb_node = Some(picked);
            Ok(())
        },
        ProcOp::WrUnet => {
            if params.len() != 6 {
                return Err(Error::WrongParameterCount);
            }
            let node = int_arg(interp, io, params, 0)?;
            let stat = str_arg(interp, io, params, 1)?;
            let name = str_arg(interp, io, params, 2)?;
            let city = str_arg(interp, io, params, 3)?;
            let operation = str_arg(interp, io, params, 4)?;
            let _broadcast_text = str_arg(interp, io, params, 5)?;
            if node < 0 || node as usize >= interp.icb_data.nodes.len() {
                return Err(Error::NodeIndexOutOfBounds(node));
            }
            let idx = node as usize;
            let old_node = interp.icb_data.nodes[idx].duplicate();
            let status = if vstd::string::StrSliceExecFns::unicode_len(stat.as_str()) > 0 {
                vstd::string::StrSliceExecFns::get_char(stat.as_str(), 0)
            } else {
                old_node.status
            };
            let updated = Node {
                status,
                name,
                city,
                operation,
                mail_waiting: old_node.mail_waiting,
                pager: old_node.pager,
                message: old_node.message,
                channel: old_node.channel,
                last_update: old_node.last_update,
            };
            proof {
                assert(wrunet_updated(
                    old(interp).icb_data.nodes@[idx as int],
                    updated,
                    stat@,
                    name@,
                    city@,
                    operation@,
                ));
            }
            interp.icb_data.nodes[idx] = updated;
            Ok(())
        },
        ProcOp::Tokenize => {
            if params.len() != 1 {
                return Err(Error::WrongParameterCount);
            }
            let text = str_arg(interp, io, params, 0)?;
            tokenize(interp, &text);
            Ok(())
        },
        ProcOp::KbdFlush => Ok(()),
        ProcOp::MdmFlush => Ok(()),
        ProcOp::KeyFlush => Ok(()),
        _ => Err(Error::NotSupported),
    }
}

/// Executes one statement against the current frame: fetch-and-dispatch by
/// kind, with control flow overwriting the cursor and a procedure call
/// pushing a fresh frame (the engine's loop runs it; `true` reports the
/// push, so the caller skips its cursor bump). Structured forms and the
/// unimplemented catalog fail as explicitly unsupported.
pub fn execute_statement<C: ExecutionContext, IO: PCBoardIO>(
    interp: &mut Interpreter,
    prg: &Program,
    ctx: &mut C,
    io: &mut IO,
    stmt: &Statement,
) -> (r: Result<bool, Error>)
    requires
        old(interp).has_frames(),
        frames_wf(old(interp), prg),
        old(interp).top().cur_ptr < usize::MAX,
    ensures
        final(interp).has_frames(),
        frames_wf(final(interp), prg),
        final(interp).is_running == old(interp).is_running,
        match r {
            Ok(pushed) => {
                &&& (pushed ==> {
                    &&& final(interp).cur_frame@.len() == old(interp).cur_frame@.len() + 1
                    &&& (forall|i: int|
                        0 <= i < old(interp).cur_frame@.len() ==> final(interp).cur_frame@[i]
                            == old(interp).cur_frame@[i])
                    &&& final(interp).top().cur_ptr == 0
                })
                &&& (!pushed ==> {
                    &&& final(interp).cur_frame@.len() == old(interp).cur_frame@.len()
                    &&& (forall|i: int|
                        0 <= i < old(interp).cur_frame@.len() - 1 ==> final(interp).cur_frame@[i]
                            == old(interp).cur_frame@[i])
                    &&& final(interp).top().cur_ptr < usize::MAX
                    &&& final(interp).top().block_id == old(interp).top().block_id
                    &&& final(interp).top().label_table@ == old(interp).top().label_table@
                })
            },
            Err(_) => true,
        },
        r is Ok ==> match *stmt {
            Statement::Comment(_) | Statement::Label(_) => final(interp).cur_frame@ == old(interp).cur_frame@ && same_host_state(old(interp), final(interp)),
            Statement::End => {
                &&& final(interp).top().cur_ptr == usize::MAX - 1
                &&& final(interp).top().values@ == old(interp).top().values@
                &&& final(interp).top().gosub_stack@ == old(interp).top().gosub_stack@
                &&& same_host_state(old(interp), final(interp))
            },
            Statement::Goto(label) => {
                &&& old(interp).top().label_table@.contains_key(label@)
                &&& final(interp).top().cur_ptr == old(interp).top().label_table@[label@]
                &&& final(interp).top().values@ == old(interp).top().values@
                &&& final(interp).top().gosub_stack@ == old(interp).top().gosub_stack@
                &&& same_host_state(old(interp), final(interp))
            },
            Statement::Gosub(label) => {
                &&& old(interp).top().label_table@.contains_key(label@)
                &&& final(interp).top().cur_ptr == old(interp).top().label_table@[label@]
                &&& final(interp).top().gosub_stack@ == old(interp).top().gosub_stack@.push(
                    old(interp).top().cur_ptr,
                )
                &&& final(interp).top().values@ == old(interp).top().values@
                &&& same_host_state(old(interp), final(interp))
            },
            Statement::Return => {
                &&& old(interp).top().gosub_stack@.len() > 0
                &&& final(interp).top().cur_ptr == old(interp).top().gosub_stack@.last()
                &&& final(interp).top().gosub_stack@ == old(interp).top().gosub_stack@.drop_last()
                &&& final(interp).top().values@ == old(interp).top().values@
                &&& same_host_state(old(interp), final(interp))
            },
            Statement::Inc(name) => {
                &&& old(interp).cur_vals().dom().contains(name@)
                &&& (match add_view(
                    val_scalar(old(interp).cur_vals()[name@]),
                    ScalarView::Int(1),
                ) {
                    Some(sv) => final(interp).cur_vals() == old(interp).cur_vals().insert(
                        name@,
                        ValView::Scalar(sv),
                    ),
                    None => false,
                })
                &&& final(interp).top().cur_ptr == old(interp).top().cur_ptr
                &&& same_host_state(old(interp), final(interp))
            },
            Statement::Dec(name) => {
                &&& old(interp).cur_vals().dom().contains(name@)
                &&& (match (int_of(val_scalar(old(interp).cur_vals()[name@]))) {
                    Some(x) => final(interp).cur_vals() == old(interp).cur_vals().insert(
                        name@,
                        ValView::Scalar(ScalarView::Int(wrap_i32(x - 1))),
                    ),
                    None => false,
                })
                &&& final(interp).top().cur_ptr == old(interp).top().cur_ptr
                &&& same_host_state(old(interp), final(interp))
            },
            Statement::If(cond, _) => match spec_eval(old(interp).cur_vals(), cond) {
                EvalView::Val(sv) => match cond_truth_of(sv) {
                    Some(t) => !t ==> final(interp).cur_frame@ == old(interp).cur_frame@
                        && same_host_state(old(interp), final(interp)),
                    None => false,
                },
                EvalView::Fault => false,
                EvalView::Ext => true,
            },
            Statement::ProcedureCall(name, args) => match final(interp).top().block_id {
                BlockId::Procedure(pi) => {
                    &&& first_proc_index(prg.procedure_implementations@, name@, 0) == Some(
                        pi as int,
                    )
                    &&& final(interp).top().gosub_stack@.len() == 0
                    &&& (params_bindable(
                        old(interp).cur_vals(),
                        proc_formals(prg.procedure_implementations@[pi as int].declaration),
                        args@,
                    ) ==> final(interp).cur_vals() == params_map(
                        old(interp).cur_vals(),
                        proc_formals(prg.procedure_implementations@[pi as int].declaration),
                        args@,
                        args@.len() as int,
                    ))
                    &&& same_host_state(old(interp), final(interp))
                },
                BlockId::Main => false,
            },
            _ => true,
        },
        match *stmt {
            Statement::Comment(_) | Statement::Label(_) | Statement::End => r is Ok,
            Statement::Goto(label) | Statement::Gosub(label) => {
                &&& (r is Ok <==> old(interp).top().label_table@.contains_key(label@))
                &&& (!old(interp).top().label_table@.contains_key(label@) ==> (r matches Err(
                    Error::LabelNotFound(_),
                )) && interp_unchanged(old(interp), final(interp)))
            },
            Statement::Return => {
                &&& (r is Ok <==> old(interp).top().gosub_stack@.len() > 0)
                &&& (old(interp).top().gosub_stack@.len() == 0 ==> (r matches Err(
                    Error::ReturnStackUnderflow,
                )) && interp_unchanged(old(interp), final(interp)))
            },
            Statement::Inc(name) => {
                &&& (!old(interp).cur_vals().dom().contains(name@) ==> (r matches Err(
                    Error::VariableNotFound(_),
                )) && interp_unchanged(old(interp), final(interp)))
                &&& (old(interp).cur_vals().dom().contains(name@) && add_view(
                    val_scalar(old(interp).cur_vals()[name@]),
                    ScalarView::Int(1),
                ) is Some ==> r is Ok)
            },
            Statement::Dec(name) => {
                &&& (!old(interp).cur_vals().dom().contains(name@) ==> (r matches Err(
                    Error::VariableNotFound(_),
                )) && interp_unchanged(old(interp), final(interp)))
                &&& (old(interp).cur_vals().dom().contains(name@) && int_of(
                    val_scalar(old(interp).cur_vals()[name@]),
                ) is Some ==> r is Ok)
            },
            Statement::If(cond, _) => match spec_eval(old(interp).cur_vals(), cond) {
                EvalView::Val(sv) => match cond_truth_of(sv) {
                    Some(truth) => !truth ==> r is Ok,
                    None => r matches Err(Error::TypeMismatch) && interp_unchanged(
                        old(interp),
                        final(interp),
                    ),
                },
                EvalView::Fault => r is Err,
                EvalView::Ext => true,
            },
            Statement::Continue | Statement::Break | Statement::For(_, _, _, _, _)
                | Statement::DoWhile(_, _) | Statement::IfThen(_, _) | Statement::BlockStmt(_) => r
                matches Err(Error::NotSupported) && interp_unchanged(old(interp), final(interp)),
            Statement::ProcedureCall(name, args) => match first_proc_index(
                prg.procedure_implementations@,
                name@,
                0,
            ) {
                Some(pi) => params_bindable(
                    old(interp).cur_vals(),
                    proc_formals(prg.procedure_implementations@[pi].declaration),
                    args@,
                ) ==> r is Ok,
                None => r matches Err(Error::ProcedureNotFound(_)) && interp_unchanged(
                    old(interp),
                    final(interp),
                ),
            },
            Statement::Let(target, expr) => let_outcome(
                *old(interp),
                *final(interp),
                prg,
                target,
                expr,
                match r {
                    Ok(_) => Ok(()),
                    Err(e) => Err(e),
                },
            ),
            _ => true,
        },
    decreases stmt,
{
    match stmt {
        Statement::Comment(_) | Statement::Label(_) => Ok(false),
        Statement::End => {
            let mut frame = take_top(interp);
            frame.cur_ptr = usize::MAX - 1;
            put_top(interp, frame);
            proof {
                assert(final(interp).cur_frame@.drop_last() =~= old(interp).cur_frame@.drop_last());
            }
            Ok(false)
        },
        Statement::Goto(label) => {
            let fi = interp.cur_frame.len() - 1;
            let target: usize = match interp.cur_frame[fi].label_table.get(label) {
                Some(t) => *t,
                None => {
                    return Err(Error::LabelNotFound(label.clone()));
                },
            };
            let mut frame = take_top(interp);
            frame.cur_ptr = target;
            put_top(interp, frame);
            Ok(false)
        },
        Statement::Gosub(label) => {
            let fi = interp.cur_frame.len() - 1;
            let target: usize = match interp.cur_frame[fi].label_table.get(label) {
                Some(t) => *t,
                None => {
                    return Err(Error::LabelNotFound(label.clone()));
                },
            };
            let mut frame = take_top(interp);
            frame.gosub_stack.push(frame.cur_ptr);
            frame.cur_ptr = target;
            put_top(interp, frame);
            Ok(false)
        },
        Statement::Return => {
            let fi = interp.cur_frame.len() - 1;
            if interp.cur_frame[fi].gosub_stack.len() == 0 {
                return Err(Error::ReturnStackUnderflow);
            }
            let mut frame = take_top(interp);
            let target = match frame.gosub_stack.pop() {
                Some(t) => t,
                None => {
                    proof {
                        assert(false);
                    }
                    0
                },
            };
            frame.cur_ptr = target;
            put_top(interp, frame);
            Ok(false)
        },
        Statement::Inc(name) => {
            let fi = interp.cur_frame.len() - 1;
            let current: VariableValue = match interp.cur_frame[fi].values.get(name) {
                Some(v) => v.duplicate(),
                None => {
                    return Err(Error::VariableNotFound(name.clone()));
                },
            };
            let one = VariableValue::Integer(1);
            let updated = value_add(&current, &one)?;
            let mut frame = take_top(interp);
            frame.values.insert(name.clone(), updated);
            put_top(interp, frame);
            proof {
                lemma_vals_view_insert(old(interp).top().values@, name@, updated);
            }
            Ok(false)
        },
        Statement::Dec(name) => {
            let fi = interp.cur_frame.len() - 1;
            let current: VariableValue = match interp.cur_frame[fi].values.get(name) {
                Some(v) => v.duplicate(),
                None => {
                    return Err(Error::VariableNotFound(name.clone()));
                },
            };
            let one = VariableValue::Integer(1);
            let updated = value_sub(&current, &one)?;
            let mut frame = take_top(interp);
            frame.values.insert(name.clone(), updated);
            put_top(interp, frame);
            proof {
                lemma_vals_view_insert(old(interp).top().values@, name@, updated);
            }
            Ok(false)
        },
        Statement::If(cond, inner) => {
            let value = evaluate_exp(interp, io, cond)?;
            let truth = cond_truth(&value)?;
            if truth {
                execute_statement(interp, prg, ctx, io, inner)
            } else {
                Ok(false)
            }
        },
        Statement::Call(def, params) => {
            call_predefined_procedure(interp, prg, ctx, io, *def, params)?;
            Ok(false)
        },
        Statement::ProcedureCall(name, args) => {
            stmt_procedure_call(interp, prg, io, name, args)?;
            Ok(true)
        },
        Statement::Continue => Err(Error::NotSupported),
        Statement::Break => Err(Error::NotSupported),
        Statement::For(_, _, _, _, _) => Err(Error::NotSupported),
        Statement::DoWhile(_, _) => Err(Error::NotSupported),
        Statement::IfThen(_, _) => Err(Error::NotSupported),
        Statement::BlockStmt(_) => Err(Error::NotSupported),
        Statement::Let(target, expr) => {
            stmt_let(interp, prg, io, target, expr)?;
            Ok(false)
        },
    }
}

/// Locates the named procedure, evaluates each actual argument, coerces it
/// to the declared parameter type, and pushes a fresh frame holding exactly
/// those bindings; the engine's loop then runs the procedure's block. An
/// unknown name, a surplus argument or a malformed parameter declaration is
/// a fatal error.
#[verifier::rlimit(60)]
fn stmt_procedure_call<IO: PCBoardIO>(
    interp: &mut Interpreter,
    prg: &Program,
    io: &IO,
    name: &String,
    args: &Vec<Expression>,
) -> (r: Result<(), Error>)
    requires
        old(interp).has_frames(),
        frames_wf(old(interp), prg),
        old(interp).top().cur_ptr < usize::MAX,
    ensures
        final(interp).has_frames(),
        frames_wf(final(interp), prg),
        same_host_state(old(interp), final(interp)),
        r is Err ==> final(interp).cur_frame@ == old(interp).cur_frame@,
        r is Ok ==> {
            &&& final(interp).cur_frame@.len() == old(interp).cur_frame@.len() + 1
            &&& (forall|i: int|
                0 <= i < old(interp).cur_frame@.len() ==> final(interp).cur_frame@[i] == old(
                    interp,
                ).cur_frame@[i])
            &&& final(interp).top().cur_ptr == 0
            &&& final(interp).top().gosub_stack@.len() == 0
            &&& match final(interp).top().block_id {
                BlockId::Procedure(pi) => {
                    &&& first_proc_index(prg.procedure_implementations@, name@, 0) == Some(
                        pi as int,
                    )
                    &&& (params_bindable(
                        old(interp).cur_vals(),
                        proc_formals(prg.procedure_implementations@[pi as int].declaration),
                        args@,
                    ) ==> final(interp).cur_vals() == params_map(
                        old(interp).cur_vals(),
                        proc_formals(prg.procedure_implementations@[pi as int].declaration),
                        args@,
                        args@.len() as int,
                    ))
                },
                BlockId::Main => false,
            }
        },
        match first_proc_index(prg.procedure_implementations@, name@, 0) {
            Some(pi) => params_bindable(
                old(interp).cur_vals(),
                proc_formals(prg.procedure_implementations@[pi].declaration),
                args@,
            ) ==> r is Ok,
            None => r matches Err(Error::ProcedureNotFound(_)),
        },
{
    let pi = match find_procedure(prg, name) {
        Some(pi) => pi,
        None => {
            return Err(Error::ProcedureNotFound(name.clone()));
        },
    };
    let label_table = calc_table(&prg.procedure_implementations[pi].block);
    let proc_stmt_count = prg.procedure_implementations[pi].block.statements.len();
    proof {
        assert(proc_stmt_count <= usize::MAX);
        lemma_label_map_bounded(prg.procedure_implementations@[pi as int].block.statements@);
    }
    let mut prg_frame = StackFrame {
        values: crate::namemap::NameMap::new(),
        gosub_stack: Vec::new(),
        cur_ptr: 0,
        label_table,
        block_id: BlockId::Procedure(pi),
    };
    let ghost formals_spec: Seq<Declaration> = proc_formals(
        prg.procedure_implementations@[pi as int].declaration,
    );
    let ghost bindable: bool = params_bindable(old(interp).cur_vals(), formals_spec, args@);
    let mut i: usize = 0;
    proof {
        assert(vals_view(prg_frame.values@) =~= params_map(
            old(interp).cur_vals(),
            formals_spec,
            args@,
            0,
        ));
    }
    while i < args.len()
        invariant
            interp.has_frames(),
            frames_wf(interp, prg),
            interp.cur_frame@ == old(interp).cur_frame@,
            same_host_state(old(interp), interp),
            i <= args@.len(),
            pi < prg.procedure_implementations@.len(),
            first_proc_index(prg.procedure_implementations@, name@, 0) == Some(pi as int),
            proc_decl_name(prg.procedure_implementations@[pi as int].declaration) == Some(
                name@,
            ),
            formals_spec == proc_formals(
                prg.procedure_implementations@[pi as int].declaration,
            ),
            bindable == params_bindable(old(interp).cur_vals(), formals_spec, args@),
            forall|l: Seq<char>|
                prg_frame.label_table@.contains_key(l) ==> prg_frame.label_table@[l]
                    < usize::MAX,
            prg_frame.gosub_stack@.len() == 0,
            prg_frame.block_id == BlockId::Procedure(pi),
            prg_frame.cur_ptr == 0,
            bindable ==> vals_view(prg_frame.values@) == params_map(
                old(interp).cur_vals(),
                formals_spec,
                args@,
                i as int,
            ),
        decreases args@.len() - i,
    {
        match &prg.procedure_implementations[pi].declaration {
            Declaration::Procedure(_, formals) => {
                proof {
                    assert(formals_spec == formals@);
                }
                if i >= formals.len() {
                    proof {
                        assert(!bindable);
                    }
                    return Err(Error::WrongParameterCount);
                }
                match &formals[i] {
                    Declaration::Variable(ptype, infos) => {
                        if infos.len() < 1 {
                            proof {
                                assert(formals_spec[i as int] == Declaration::Variable(
                                    *ptype,
                                    *infos,
                                ));
                                assert(!bindable);
                            }
                            return Err(Error::NotSupported);
                        }
                        let value = evaluate_exp(interp, io, &args[i])?;
                        let converted = crate::values::convert_to(*ptype, &value);
                        proof {
                            assert(formals_spec[i as int] == Declaration::Variable(
                                *ptype,
                                *infos,
                            ));
                            if bindable {
                                lemma_vals_view_insert(
                                    prg_frame.values@,
                                    var_info_name(infos@[0]),
                                    converted,
                                );
                            }
                        }
                        prg_frame.values.insert(infos[0].get_name().clone(), converted);
                    },
                    _ => {
                        proof {
                            assert(formals_spec[i as int] == formals@[i as int]);
                            assert(!bindable);
                        }
                        return Err(Error::NotSupported);
                    },
                }
            },
            _ => {
                proof {
                    assert(false);
                }
                return Err(Error::ProcedureNotFound(name.clone()));
            },
        }
        i = i + 1;
    }
    put_top(interp, prg_frame);
    Ok(())
}

/// What one assignment statement does: the expression's value, the declared
/// type's coercion, the one-based index conversion, the lazy materialization
/// from the declared size, and the fatal error owed on each bad input.
pub open spec fn let_outcome(
    pre: Interpreter,
    post: Interpreter,
    prg: &Program,
    target: VarInfo,
    expr: Expression,
    r: Result<(), Error>,
) -> bool {
    match spec_eval(pre.cur_vals(), expr) {
        EvalView::Val(sv) => {
            let name = var_info_name(target);
            let t = declared_type_of(prg.declarations@, name);
            match find_var_info(prg.declarations@, name) {
                Some(decl_info) => if var_info_dims(decl_info) == 0 {
                    &&& r is Ok
                    &&& (!(crate::values::convert_view(t, sv) is ArrMark) ==> post.cur_vals()
                        == pre.cur_vals().insert(
                        name,
                        ValView::Scalar(crate::values::convert_view(t, sv)),
                    ))
                } else {
                    let_array_outcome(pre, post, prg, target, decl_info, name, t, sv, r)
                },
                None => (r matches Err(Error::VariableNotFound(_))) && post.cur_vals()
                    == pre.cur_vals(),
            }
        },
        EvalView::Fault => r is Err,
        EvalView::Ext => true,
    }
}

/// The array half of an assignment's meaning: index checks, the stored
/// element, and lazy materialization.
pub open spec fn let_array_outcome(
    pre: Interpreter,
    post: Interpreter,
    prg: &Program,
    target: VarInfo,
    decl_info: VarInfo,
    name: Seq<char>,
    t: VariableType,
    sv: ScalarView,
    r: Result<(), Error>,
) -> bool {
    if var_info_dims(target) == 0 {
        (r matches Err(Error::TypeMismatch)) && post.cur_vals() == pre.cur_vals()
    } else {
        match spec_eval(pre.cur_vals(), first_index_of(target)) {
            EvalView::Val(isv) => match int_of(isv) {
                Some(i) => if i < 1 {
                    (r matches Err(Error::ArrayIndexOutOfBounds(_))) && post.cur_vals()
                        == pre.cur_vals()
                } else if pre.cur_vals().dom().contains(name) {
                    if var_info_dims(target) != 1 {
                        r is Err
                    } else {
                        match pre.cur_vals()[name] {
                            ValView::Arr(d0, t0, e0) => if d0 == 1 {
                                if i - 1 < e0.len() {
                                    &&& r is Ok
                                    &&& post.cur_vals() == pre.cur_vals().insert(
                                        name,
                                        ValView::Arr(1, t0, e0.update(i - 1, sv)),
                                    )
                                } else {
                                    (r matches Err(Error::ArrayIndexOutOfBounds(_)))
                                        && post.cur_vals() == pre.cur_vals()
                                }
                            } else {
                                r is Err
                            },
                            ValView::Scalar(_) => (r matches Err(Error::TypeMismatch))
                                && post.cur_vals() == pre.cur_vals(),
                        }
                    }
                } else {
                    // the first write materializes the declared array
                    if var_info_dims(target) == 1 && var_info_dims(decl_info) == 1 {
                        match spec_eval(pre.cur_vals(), first_index_of(decl_info)) {
                            EvalView::Val(dsv) => match int_of(dsv) {
                                Some(d) => if d < 0 {
                                    r matches Err(Error::ArrayIndexOutOfBounds(_))
                                } else if i - 1 < d {
                                    &&& r is Ok
                                    &&& post.cur_vals() == pre.cur_vals().insert(
                                        name,
                                        ValView::Arr(1, t, zero_elems(d).update(i - 1, sv)),
                                    )
                                } else {
                                    r matches Err(Error::ArrayIndexOutOfBounds(_))
                                },
                                None => r is Err,
                            },
                            EvalView::Fault => r is Err,
                            EvalView::Ext => true,
                        }
                    } else {
                        r is Err
                    }
                },
                None => r is Err,
            },
            EvalView::Fault => r is Err,
            EvalView::Ext => true,
        }
    }
}

/// Executes one assignment: the expression's value lands in the innermost
/// frame, coerced to the declared type for a scalar target, or stored at
/// the legacy index (one-based, converted once at the storage boundary) of
/// a declared array, which the first write lazily materializes from the
/// declared dimension expression.
#[verifier::rlimit(60)]
fn stmt_let<IO: PCBoardIO>(
    interp: &mut Interpreter,
    prg: &Program,
    io: &IO,
    target: &VarInfo,
    expr: &Expression,
) -> (r: Result<(), Error>)
    requires
        old(interp).has_frames(),
        frames_wf(old(interp), prg),
    ensures
        final(interp).has_frames(),
        frames_wf(final(interp), prg),
        final(interp).cur_frame@.len() == old(interp).cur_frame@.len(),
        forall|i: int|
            0 <= i < old(interp).cur_frame@.len() - 1 ==> final(interp).cur_frame@[i] == old(
                interp,
            ).cur_frame@[i],
        final(interp).top().cur_ptr == old(interp).top().cur_ptr,
        final(interp).top().block_id == old(interp).top().block_id,
        final(interp).top().label_table@ == old(interp).top().label_table@,
        final(interp).top().gosub_stack@ == old(interp).top().gosub_stack@,
        same_host_state(old(interp), final(interp)),
        let_outcome(*old(interp), *final(interp), prg, *target, *expr, r),
{
    let value = evaluate_exp(interp, io, expr)?;
    let var_name = target.get_name();
    let var_type = prg.get_var_type(var_name);
    let decl_is_array: bool = match prg.get_var_info(var_name) {
        Some(decl_info) => decl_info.is_array(),
        None => {
            return Err(Error::VariableNotFound(var_name.clone()));
        },
    };
    if decl_is_array {
        if !target.is_array() {
            return Err(Error::TypeMismatch);
        }
        let dim1v = evaluate_exp(interp, io, get_first_index(target))?;
        let dim1 = get_int(&dim1v)?;
        if dim1 < 1 {
            return Err(Error::ArrayIndexOutOfBounds(dim1));
        }
        let fi = interp.cur_frame.len() - 1;
        let known = interp.cur_frame[fi].values.contains(var_name);
        let fresh: Option<VariableValue> = if known {
            None
        } else {
            let decl_info = match prg.get_var_info(var_name) {
                Some(d) => d,
                None => {
                    proof {
                        assert(false);
                    }
                    return Err(Error::VariableNotFound(var_name.clone()));
                },
            };
            if !decl_info.is_array() {
                proof {
                    assert(false);
                }
                return Err(Error::TypeMismatch);
            }
            proof {
                assert(*decl_info == find_var_info(prg.declarations@, var_name@)->Some_0);
            }
            Some(create_array(interp, io, var_type, decl_info)?)
        };
        let mut frame = take_top(interp);
        let mut arr: VariableValue = match fresh {
            Some(a) => a,
            None => match frame.values.get(var_name) {
                Some(v) => {
                    proof {
                        assert(old(interp).cur_vals()[var_name@] == vv_view(
                            old(interp).top().values@[var_name@],
                        ));
                    }
                    v.duplicate()
                },
                None => {
                    put_top(interp, frame);
                    return Err(Error::VariableNotFound(var_name.clone()));
                },
            },
        };
        let slot = (dim1 as usize) - 1;
        let ghost arr_before: VariableValue = arr;
        let ghost stored_sv: ScalarView = scalar_view(value);
        proof {
            if known {
                assert(old(interp).cur_vals().dom().contains(var_name@));
                assert(vv_view(arr_before) == old(interp).cur_vals()[var_name@]);
            } else {
                assert(!old(interp).cur_vals().dom().contains(var_name@));
            }
        }
        let stored = set_array_value(&mut arr, target, value, slot);
        match stored {
            Ok(()) => {},
            Err(e) => {
                put_top(interp, frame);
                proof {
                    assert(interp.cur_frame@ =~= old(interp).cur_frame@);
                }
                return Err(e);
            },
        }
        proof {
            match (vv_view(arr_before), vv_view(arr)) {
                (ValView::Arr(d0, t0, e0), ValView::Arr(d1, t1, e1)) => {
                    assert(d0 == 1 && d1 == 1 && t1 == t0);
                    assert(e1 == e0.update(slot as int, stored_sv));
                },
                _ => {
                    assert(false);
                },
            }
            lemma_vals_view_insert(frame.values@, var_name@, arr);
        }
        frame.values.insert(var_name.clone(), arr);
        put_top(interp, frame);
        proof {
            assert(final(interp).cur_vals() == old(interp).cur_vals().insert(
                var_name@,
                vv_view(arr),
            ));
        }
        Ok(())
    } else {
        let converted = crate::values::convert_to(var_type, &value);
        let mut frame = take_top(interp);
        proof {
            lemma_vals_view_insert(frame.values@, var_name@, converted);
        }
        frame.values.insert(var_name.clone(), converted);
        put_top(interp, frame);
        Ok(())
    }
}

/// Runs a program to completion: computes the main block's label table,
/// creates the declared globals with their default values, seeds the
/// mirrored user variables, and walks the frame stack until the bottom
/// frame leaves its block, the running flag drops, or a fatal error
/// surfaces. A successful run returns true.
///
/// The host supplies a step budget: a bound on engine steps (statements
/// executed plus frame returns) after which the run fails with a fatal
/// error, so that a program stuck in a goto loop cannot hold the session
/// forever.
/// A declaration the runtime refuses at startup: a variable of function,
/// procedure or unknown type.
pub open spec fn is_unsupported_decl(d: Declaration) -> bool {
    match d {
        Declaration::Variable(t, _) => t == VariableType::Function || t == VariableType::Procedure
            || t == VariableType::Unknown,
        _ => false,
    }
}

pub fn run<C: ExecutionContext, IO: PCBoardIO>(
    prg: &Program,
    ctx: &mut C,
    io: &mut IO,
    pcb_data: &IcyBoardData,
    max_steps: u64,
) -> (r: Result<bool, Error>)
    ensures
        r matches Ok(b) ==> b,
        (exists|i: int|
            0 <= i < prg.declarations@.len() && is_unsupported_decl(
                #[trigger] prg.declarations@[i],
            )) ==> r == Err::<bool, Error>(Error::NotSupported),
        (forall|i: int|
            0 <= i < prg.declarations@.len() ==> !is_unsupported_decl(
                #[trigger] prg.declarations@[i],
            )) && max_steps == 0 ==> r == Err::<bool, Error>(Error::StepLimitReached),
        (forall|i: int|
            0 <= i < prg.declarations@.len() ==> !is_unsupported_decl(
                #[trigger] prg.declarations@[i],
            )) && max_steps >= 1 && prg.main_block.statements@.len() == 0 ==> r == Ok::<
            bool,
            Error,
        >(true),
{
    let label_table = calc_table(&prg.main_block);
    let main_stmt_count = prg.main_block.statements.len();
    proof {
        assert(main_stmt_count <= usize::MAX);
        lemma_label_map_bounded(prg.main_block.statements@);
    }
    let mut cur_frame = StackFrame {
        values: crate::namemap::NameMap::new(),
        gosub_stack: Vec::new(),
        cur_ptr: 0,
        label_table,
        block_id: BlockId::Main,
    };
    let mut d: usize = 0;
    while d < prg.declarations.len()
        invariant
            forall|l: Seq<char>|
                cur_frame.label_table@.contains_key(l) ==> cur_frame.label_table@[l]
                    < usize::MAX,
            cur_frame.gosub_stack@.len() == 0,
            cur_frame.cur_ptr == 0,
            cur_frame.block_id == BlockId::Main,
            forall|k: int|
                0 <= k < d ==> !is_unsupported_decl(#[trigger] prg.declarations@[k]),
        decreases prg.declarations@.len() - d,
    {
        match &prg.declarations[d] {
            Declaration::Variable(var_type, infos) => {
                match var_type {
                    VariableType::Function => {
                        return Err(Error::NotSupported);
                    },
                    VariableType::Procedure => {
                        return Err(Error::NotSupported);
                    },
                    VariableType::Unknown => {
                        return Err(Error::NotSupported);
                    },
                    _ => {},
                }
                let mut k: usize = 0;
                while k < infos.len()
                    invariant
                        forall|l: Seq<char>|
                            cur_frame.label_table@.contains_key(l)
                                ==> cur_frame.label_table@[l] < usize::MAX,
                        cur_frame.gosub_stack@.len() == 0,
                        cur_frame.cur_ptr == 0,
                        cur_frame.block_id == BlockId::Main,
                    decreases infos@.len() - k,
                {
                    let name = infos[k].get_name().clone();
                    if infos[k].is_array() {
                        match &infos[k] {
                            VarInfo::Var1(_, _) => {
                                let mut v: Vec<VariableValue> = Vec::new();
                                let mut c: usize = 0;
                                while c < 50
                                    invariant
                                        c <= 50,
                                    decreases 50 - c,
                                {
                                    v.push(crate::values::default_value(*var_type));
                                    c = c + 1;
                                }
                                cur_frame.values.insert(
                                    name,
                                    VariableValue::Dim1(*var_type, v),
                                );
                            },
                            VarInfo::Var2(_, _, _) => {
                                cur_frame.values.insert(
                                    name,
                                    VariableValue::Dim2(*var_type, Vec::new()),
                                );
                            },
                            _ => {
                                cur_frame.values.insert(
                                    name,
                                    VariableValue::Dim3(*var_type, Vec::new()),
                                );
                            },
                        }
                    } else {
                        cur_frame.values.insert(name, crate::values::default_value(*var_type));
                    }
                    k = k + 1;
                }
            },
            _ => {},
        }
        d = d + 1;
    }
    let mut interp = Interpreter {
        cur_frame: Vec::new(),
        is_running: true,
        icb_data: pcb_data.duplicate(),
        cur_user: 0,
        current_user: None,
        pcb_node: None,
        cur_tokens: Vec::new(),
    };
    interp.cur_frame.push(cur_frame);
    let default_user: UserRecord = Default::default();
    set_user_variables(&mut interp, &default_user);
    let mut steps_left: u64 = max_steps;
    loop
        invariant
            interp.has_frames(),
            frames_wf(&interp, prg),
            interp.is_running,
            steps_left <= max_steps,
            forall|k: int|
                0 <= k < prg.declarations@.len() ==> !is_unsupported_decl(
                    #[trigger] prg.declarations@[k],
                ),
            prg.main_block.statements@.len() == 0 ==> steps_left == max_steps
                && interp.cur_frame@.len() == 1 && interp.top().block_id == BlockId::Main
                && interp.top().cur_ptr == 0,
        decreases steps_left,
    {
        if !interp.is_running {
            return Ok(true);
        }
        if steps_left == 0 {
            return Err(Error::StepLimitReached);
        }
        steps_left = steps_left - 1;
        let fi = interp.cur_frame.len() - 1;
        let block: &Block = match interp.cur_frame[fi].block_id {
            BlockId::Main => &prg.main_block,
            BlockId::Procedure(p) => &prg.procedure_implementations[p].block,
        };
        let ptr = interp.cur_frame[fi].cur_ptr;
        if ptr >= block.statements.len() {
            if fi == 0 {
                return Ok(true);
            }
            let _ = take_top(&mut interp);
            let mut caller = take_top(&mut interp);
            caller.cur_ptr = caller.cur_ptr + 1;
            put_top(&mut interp, caller);
        } else {
            let pushed = execute_statement(&mut interp, prg, ctx, io, &block.statements[ptr])?;
            if !pushed {
                let mut frame = take_top(&mut interp);
                frame.cur_ptr = frame.cur_ptr + 1;
                put_top(&mut interp, frame);
            }
        }
    }
}



} // verus!
