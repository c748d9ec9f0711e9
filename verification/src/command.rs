//! The shell's commands: the state changes each command applies to its
//! session context. The command table itself, the terminal output, and the
//! fetch from the content-addressed store stay with the shell front end;
//! each handler here is handed plain values and mutates the context.

use crate::shell::Context;
use vstd::prelude::*;

verus! {

/// Errors a command can report.
#[derive(Debug)]
pub enum Error {
    InvalidCommand,
    CommandExecFail,
}

/// True when the context carries the reset session state (identity, name,
/// history, line buffer, prompt offset cleared; row, cursor column and
/// program untouched).
pub open spec fn is_reset(new: Context, old_ctx: Context) -> bool {
    &&& new.id == 0
    &&& new.name@ == Seq::<char>::empty()
    &&& new.history@ == Seq::<Vec<char>>::empty()
    &&& new.line_buffer@ == Seq::<char>::empty()
    &&& new.min_x == crate::shell::INIT_X_OFFSET
    &&& new.current_pos == 0
    &&& new.x == old_ctx.x
    &&& new.y == old_ctx.y
    &&& new.program@ == old_ctx.program@
}

/// Reset the session to its initial state.
pub fn reset(args: Vec<&str>, ctx: &mut Context) -> (r: Result<(), Error>)
    ensures
        r is Ok,
        is_reset(*final(ctx), *old(ctx)),
{
    ctx.reset();
    Ok(())
}

/// Install freshly fetched program bytes into the session, replacing
/// whatever was loaded before. The fetch itself happens at the shell's
/// edge; this applies its result.
pub fn load(data: Vec<u8>, ctx: &mut Context) -> (r: Result<(), Error>)
    ensures
        r is Ok,
        final(ctx).program@ == data@,
        final(ctx).id == old(ctx).id,
        final(ctx).name@ == old(ctx).name@,
        final(ctx).history@ == old(ctx).history@,
        final(ctx).line_buffer@ == old(ctx).line_buffer@,
        final(ctx).min_x == old(ctx).min_x,
        final(ctx).x == old(ctx).x,
        final(ctx).y == old(ctx).y,
        final(ctx).current_pos == old(ctx).current_pos,
{
    ctx.program = data;
    Ok(())
}

/// List running programs.
pub fn list(args: Vec<&str>, ctx: &mut Context) -> (r: Result<(), Error>)
    ensures
        r is Ok,
        is_reset(*final(ctx), *old(ctx)),
{
    ctx.reset();
    Ok(())
}

/// Compile the named program.
pub fn compile(args: Vec<&str>, ctx: &mut Context) -> (r: Result<(), Error>)
    ensures
        r is Ok,
        is_reset(*final(ctx), *old(ctx)),
{
    ctx.reset();
    Ok(())
}

/// Run the named program.
pub fn run(args: Vec<&str>, ctx: &mut Context) -> (r: Result<(), Error>)
    ensures
        r is Ok,
        is_reset(*final(ctx), *old(ctx)),
{
    ctx.reset();
    Ok(())
}

/// List connected peers.
pub fn peers(args: Vec<&str>, ctx: &mut Context) -> (r: Result<(), Error>)
    ensures
        r is Ok,
        is_reset(*final(ctx), *old(ctx)),
{
    ctx.reset();
    Ok(())
}

/// Save the current shell session.
pub fn save(args: Vec<&str>, ctx: &mut Context) -> (r: Result<(), Error>)
    ensures
        r is Ok,
        is_reset(*final(ctx), *old(ctx)),
{
    ctx.reset();
    Ok(())
}

/// Set the session name.
pub fn name(args: Vec<&str>, ctx: &mut Context) -> (r: Result<(), Error>)
    ensures
        r is Ok,
        is_reset(*final(ctx), *old(ctx)),
{
    ctx.reset();
    Ok(())
}

} // verus!
