//! The interactive shell's editing state: the line buffer, the input
//! history, and the cursor bookkeeping of the prompt. The terminal itself
//! (raw mode, key events, drawing) lives outside the library; these
//! operations are the pure state changes behind it.

use vstd::prelude::*;

verus! {

/// Errors the shell reports for text it cannot act on.
#[derive(Debug)]
pub enum ShellError {
    InvalidCommand,
    Syntax,
}

/// The column where input begins when the prompt shows a single-digit
/// history index.
pub const INIT_X_OFFSET: u16 = 14;

/// The number of decimal digits of `n` (zero for zero).
pub open spec fn digits(n: nat) -> nat
    decreases n,
{
    if n == 0 {
        0
    } else {
        1 + digits(n / 10)
    }
}

/// Powers of ten.
pub open spec fn pow10(k: nat) -> nat
    decreases k,
{
    if k == 0 {
        1
    } else {
        10 * pow10((k - 1) as nat)
    }
}

proof fn lemma_pow10_pos(k: nat)
    ensures
        pow10(k) >= 1,
    decreases k,
{
    if k > 0 {
        lemma_pow10_pos((k - 1) as nat);
    }
}

proof fn lemma_digits_le(n: nat, k: nat)
    requires
        n < pow10(k),
    ensures
        digits(n) <= k,
    decreases n,
{
    if n > 0 {
        if k == 0 {
            assert(pow10(0) == 1);
        }
        let p = pow10((k - 1) as nat);
        lemma_pow10_pos((k - 1) as nat);
        assert(n / 10 < p) by (nonlinear_arith)
            requires
                n < 10 * p,
                p >= 1,
                n >= 0,
        ;
        assert(n / 10 < n) by (nonlinear_arith)
            requires
                n >= 1,
        ;
        lemma_digits_le(n / 10, (k - 1) as nat);
    }
}

/// Every machine-sized index has at most twenty decimal digits.
proof fn lemma_digits_of_usize(n: usize)
    ensures
        digits(n as nat) <= 20,
{
    reveal_with_fuel(pow10, 21);
    assert(pow10(20) == 100000000000000000000);
    lemma_digits_le(n as nat, 20);
}

/// The input column where the prompt ends, as a function of the history
/// index it displays.
pub open spec fn prompt_min_x(pos: nat) -> int {
    INIT_X_OFFSET + (if pos > 0 {
        digits(pos) - 1
    } else {
        0
    })
}

/// One shell session's editing state.
pub struct Context {
    /// ID associated to this shell context
    pub id: u64,
    /// name of the shell context
    pub name: String,
    /// history of all past input to the shell
    pub history: Vec<Vec<char>>,
    /// the current line buffer
    pub line_buffer: Vec<char>,
    /// the minimum X CLI offset (a function of prompt length)
    pub min_x: u16,
    /// current X value in the CLI
    pub x: u16,
    /// current Y value in the CLI
    pub y: u16,
    /// current position relative to self.history
    pub current_pos: usize,
    /// the bytes of the currently loaded program
    pub program: Vec<u8>,
}

impl Context {
    /// The cursor never sits left of the prompt.
    pub open spec fn cursor_ok(&self) -> bool {
        self.min_x <= self.x
    }

    /// A fresh session: empty buffers, cursor at the prompt's edge.
    pub fn new() -> (ctx: Context)
        ensures
            ctx.id == 0,
            ctx.name@ == Seq::<char>::empty(),
            ctx.history@ == Seq::<Vec<char>>::empty(),
            ctx.line_buffer@ == Seq::<char>::empty(),
            ctx.min_x == INIT_X_OFFSET,
            ctx.x == INIT_X_OFFSET,
            ctx.y == 1,
            ctx.current_pos == 0,
            ctx.program@ == Seq::<u8>::empty(),
            ctx.cursor_ok(),
    {
        Context {
            id: 0,
            name: String::new(),
            history: Vec::new(),
            line_buffer: Vec::new(),
            min_x: INIT_X_OFFSET,
            x: INIT_X_OFFSET,
            y: 1,
            current_pos: 0,
            program: Vec::new(),
        }
    }

    /// Return the session to its initial state: identity, name, history and
    /// line buffer are cleared and the prompt offset is reset. The cursor
    /// row and the loaded program are left as they are.
    pub fn reset(&mut self)
        ensures
            final(self).id == 0,
            final(self).name@ == Seq::<char>::empty(),
            final(self).history@ == Seq::<Vec<char>>::empty(),
            final(self).line_buffer@ == Seq::<char>::empty(),
            final(self).min_x == INIT_X_OFFSET,
            final(self).current_pos == 0,
            final(self).x == old(self).x,
            final(self).y == old(self).y,
            final(self).program@ == old(self).program@,
    {
        self.id = 0;
        self.name = String::new();
        self.min_x = INIT_X_OFFSET;
        self.current_pos = 0;
        self.line_buffer.clear();
        self.history.clear();
    }

    /// The cursor's offset into the line buffer.
    pub fn input_pos(&self) -> (r: u16)
        requires
            self.cursor_ok(),
        ensures
            r == self.x - self.min_x,
    {
        self.x - self.min_x
    }

    /// Type one character at the cursor: append when the cursor sits at or
    /// past the end of the buffer, insert otherwise; the cursor moves one
    /// column right.
    pub fn input_char(&mut self, c: char)
        requires
            old(self).cursor_ok(),
            old(self).x < u16::MAX,
        ensures
            final(self).line_buffer@ == (if old(self).x - old(self).min_x
                >= old(self).line_buffer@.len() {
                old(self).line_buffer@.push(c)
            } else {
                old(self).line_buffer@.insert(old(self).x - old(self).min_x, c)
            }),
            final(self).x == old(self).x + 1,
            final(self).min_x == old(self).min_x,
            final(self).y == old(self).y,
            final(self).history@ == old(self).history@,
            final(self).current_pos == old(self).current_pos,
            final(self).id == old(self).id,
            final(self).name@ == old(self).name@,
            final(self).program@ == old(self).program@,
    {
        let pos = self.input_pos();
        if pos as usize >= self.line_buffer.len() {
            self.line_buffer.push(c);
        } else {
            let idx = pos as usize;
            self.line_buffer.insert(idx, c);
        }
        self.x = self.x + 1;
    }

    /// Step one entry back in the history: the previous entry replaces the
    /// line buffer and the cursor moves to its end. At the oldest entry
    /// nothing changes.
    pub fn shift_history_back(&mut self)
        requires
            old(self).current_pos > 0 ==> {
                &&& old(self).current_pos - 1 < old(self).history@.len()
                &&& old(self).history@[old(self).current_pos - 1]@.len() + INIT_X_OFFSET + 20
                    < u16::MAX
            },
        ensures
            old(self).current_pos == 0 ==> *final(self) == *old(self),
            old(self).current_pos > 0 ==> {
                &&& final(self).current_pos == old(self).current_pos - 1
                &&& final(self).line_buffer@ == old(self).history@[old(self).current_pos - 1]@
                &&& final(self).min_x == prompt_min_x(final(self).current_pos as nat)
                &&& final(self).x == final(self).min_x + final(self).line_buffer@.len()
                &&& final(self).history@ == old(self).history@
                &&& final(self).y == old(self).y
                &&& final(self).program@ == old(self).program@
            },
    {
        if self.current_pos > 0 {
            self.current_pos = self.current_pos - 1;
            self.line_buffer = self.history[self.current_pos].clone();
            self.reset_x();
            proof {
                lemma_digits_of_usize(self.current_pos);
            }
            self.x = self.x + (self.line_buffer.len() as u16);
        }
    }

    /// Step one entry forward in the history: the next entry replaces the
    /// line buffer and the cursor moves to its end. At the newest entry
    /// nothing changes.
    pub fn shift_history_forward(&mut self)
        requires
            old(self).history@.len() > 0 && old(self).current_pos + 1 < old(self).history@.len()
                ==> old(self).history@[old(self).current_pos + 1]@.len() + INIT_X_OFFSET + 20
                < u16::MAX,
        ensures
            !(old(self).history@.len() > 0 && old(self).current_pos + 1 < old(
                self,
            ).history@.len()) ==> *final(self) == *old(self),
            old(self).history@.len() > 0 && old(self).current_pos + 1 < old(self).history@.len()
                ==> {
                &&& final(self).current_pos == old(self).current_pos + 1
                &&& final(self).line_buffer@ == old(self).history@[old(self).current_pos + 1]@
                &&& final(self).min_x == prompt_min_x(final(self).current_pos as nat)
                &&& final(self).x == final(self).min_x + final(self).line_buffer@.len()
                &&& final(self).history@ == old(self).history@
                &&& final(self).y == old(self).y
                &&& final(self).program@ == old(self).program@
            },
    {
        if self.history.len() > 0 && self.current_pos < self.history.len() - 1 {
            self.current_pos = self.current_pos + 1;
            self.line_buffer = self.history[self.current_pos].clone();
            self.reset_x();
            proof {
                lemma_digits_of_usize(self.current_pos);
            }
            self.x = self.x + (self.line_buffer.len() as u16);
        }
    }

    /// The most recent history entry.
    pub fn last_input(&self) -> (r: &Vec<char>)
        requires
            self.history@.len() > 0,
        ensures
            r@ == self.history@[self.history@.len() - 1]@,
    {
        &self.history[self.history.len() - 1]
    }

    /// Move the cursor back to the prompt's edge, accounting for the width
    /// of the history index shown in the prompt.
    pub fn reset_x(&mut self)
        ensures
            final(self).min_x == prompt_min_x(old(self).current_pos as nat),
            final(self).x == final(self).min_x,
            final(self).min_x <= INIT_X_OFFSET + 20,
            final(self).current_pos == old(self).current_pos,
            final(self).history@ == old(self).history@,
            final(self).line_buffer@ == old(self).line_buffer@,
            final(self).y == old(self).y,
            final(self).id == old(self).id,
            final(self).name@ == old(self).name@,
            final(self).program@ == old(self).program@,
    {
        // count the number of digits in the index placeholder, so that we
        // know how far to offset x in the prompt
        let mut count: usize = 0;
        let mut n = self.current_pos;
        proof {
            lemma_digits_of_usize(self.current_pos);
        }
        while n != 0
            invariant
                count + digits(n as nat) == digits(self.current_pos as nat),
                digits(self.current_pos as nat) <= 20,
            decreases n,
        {
            proof {
                assert((n as nat) / 10 < n as nat) by (nonlinear_arith)
                    requires
                        n >= 1,
                ;
            }
            n = n / 10;
            count = count + 1;
        }
        self.min_x = INIT_X_OFFSET + (if self.current_pos > 0 {
            (count - 1) as u16
        } else {
            0
        });
        self.x = self.min_x;
    }
}

/// The banner the shell prints at startup.
pub fn info_graphic() -> (r: String)
    ensures
        r@.len() > 0,
{
    let banner = "\n\n    .=.  ____  .=.\n    \\ .-'    '-. /       turtl\n    /.'\\_/\\_/'.\\.-p.\n--=|: -<_><_>- :|   >\n    \\'./ \\/ \\.'/'-b'\n    / '-.____.-' \\\n    '='        '='\n\n    ";
    proof {
        reveal_strlit(
            "\n\n    .=.  ____  .=.\n    \\ .-'    '-. /       turtl\n    /.'\\_/\\_/'.\\.-p.\n--=|: -<_><_>- :|   >\n    \\'./ \\/ \\.'/'-b'\n    / '-.____.-' \\\n    '='        '='\n\n    ",
        );
    }
    banner.to_owned()
}

} // verus!
