//! The assembly text of each construct. Every piece is stated once as a
//! sequence of characters and built once as a string; the emitters put the
//! pieces together.

use crate::text::{decimal_digits, push_decimal, push_signed_decimal, signed_decimal};
use vstd::prelude::*;
use vstd::string::StringExecFns;

verus! {

/// Puts a second copy of the top item on the stack.
pub const DUP: &'static str = "    pop!  t0\n    push! t0 t0\n";

/// Puts a copy of the second item on top of the stack.
pub const OVER: &'static str = "    pop!  t0 t1\n    push! t1 t0 t1\n";

/// Exchanges the two top items.
pub const SWAP: &'static str = "    pop!  t0 t1\n    push! t0 t1\n";

/// Brings the third item to the top.
pub const ROT: &'static str = "    pop!  t0 t1 t2\n    push! t1 t0 t2\n";

/// Stops the machine.
pub const HALT: &'static str = "    halt\n";

/// Takes the top item off.
pub const DROP: &'static str = "    pop!  t0\n";

/// Replaces the pointer on top by the word that it points to.
pub const LOAD: &'static str = "    pop!  t0\n    load  t0 t0\n    push! t0\n";

/// Stores the second item at the address on top, and takes both off.
pub const STORE: &'static str = "    pop!  t1 t0\n    str   t1 t0\n";

/// Replaces the top item by its bitwise complement.
pub const NOT: &'static str = "    pop!  t0\n    not   t0\n    push! t0\n";

/// Moves the top item of the data stack to the return stack.
pub const BIND: &'static str = "    pop!  t1\n    push  t5 t1\n";

/// The interrupt service routine of a program that defines none.
pub const DEFAULT_ISR: &'static str = "\nfn .fn_isr\n    isr!\n    rti!\n#end .fn_isr\n";

/// Puts the number `val` on the stack.
pub open spec fn push_number_text(val: int) -> Seq<char> {
    "    imov! t0 "@
        + signed_decimal(val)
        + "\n    push  t0\n"@
}

/// Puts the number `val` on the stack.
pub fn push_number(val: isize) -> (r: String)
    ensures
        r@ == push_number_text(val as int),
{
    let mut r = String::from_str("    imov! t0 ");
    push_signed_decimal(&mut r, val);
    r.append("\n    push  t0\n");
    r
}

/// Puts the address of `label` on the stack.
pub open spec fn push_label_text(label: Seq<char>) -> Seq<char> {
    "    imov! t0 ."@
        + label
        + "\n    push! t0\n"@
}

/// Puts the address of `label` on the stack.
pub fn push_label(label: &str) -> (r: String)
    ensures
        r@ == push_label_text(label@),
{
    let mut r = String::from_str("    imov! t0 .");
    r.append(label);
    r.append("\n    push! t0\n");
    r
}

/// Puts the address of the binding that lies `offset` words above the return stack pointer on the stack.
pub open spec fn binding_address_text(offset: nat) -> Seq<char> {
    "    mov   t0 t5\n    imov! t1 "@
        + decimal_digits(offset)
        + "\n    add   t0 t1\n    push  t0\n"@
}

/// Puts the address of the binding that lies `offset` words above the return stack pointer on the stack.
pub fn binding_address(offset: usize) -> (r: String)
    ensures
        r@ == binding_address_text(offset as nat),
{
    let mut r = String::from_str("    mov   t0 t5\n    imov! t1 ");
    push_decimal(&mut r, offset);
    r.append("\n    add   t0 t1\n    push  t0\n");
    r
}

/// Calls the function at `target` and comes back to `ret`.
pub open spec fn call_text(ret: Seq<char>, target: Seq<char>) -> Seq<char> {
    "    imov! t0 ."@
        + ret
        + "\n    push  t5 t0\n    jmp!  ."@
        + target
        + "\n."@
        + ret
        + "\n"@
}

/// Calls the function at `target` and comes back to `ret`.
pub fn call(ret: &str, target: &str) -> (r: String)
    ensures
        r@ == call_text(ret@, target@),
{
    let mut r = String::from_str("    imov! t0 .");
    r.append(ret);
    r.append("\n    push  t5 t0\n    jmp!  .");
    r.append(target);
    r.append("\n.");
    r.append(ret);
    r.append("\n");
    r
}

/// Takes the condition off the stack and runs one of the two arms.
pub open spec fn conditional_text(if_id: Seq<char>, else_id: Seq<char>, exit_id: Seq<char>, if_text: Seq<char>, else_text: Seq<char>) -> Seq<char> {
    "    pop!  t0\n    tst   t0\n    jz!   ."@
        + else_id
        + "\n."@
        + if_id
        + "\n"@
        + if_text
        + "    jmp!  ."@
        + exit_id
        + "\n."@
        + else_id
        + "\n"@
        + else_text
        + "."@
        + exit_id
        + "\n"@
}

/// Takes the condition off the stack and runs one of the two arms.
pub fn conditional(if_id: &str, else_id: &str, exit_id: &str, if_text: &str, else_text: &str) -> (r: String)
    ensures
        r@ == conditional_text(if_id@, else_id@, exit_id@, if_text@, else_text@),
{
    let mut r = String::from_str("    pop!  t0\n    tst   t0\n    jz!   .");
    r.append(else_id);
    r.append("\n.");
    r.append(if_id);
    r.append("\n");
    r.append(if_text);
    r.append("    jmp!  .");
    r.append(exit_id);
    r.append("\n.");
    r.append(else_id);
    r.append("\n");
    r.append(else_text);
    r.append(".");
    r.append(exit_id);
    r.append("\n");
    r
}

/// Runs the body for as long as the condition that `eval_text` leaves is not zero.
pub open spec fn while_loop_text(eval_id: Seq<char>, body_id: Seq<char>, exit_id: Seq<char>, eval_text: Seq<char>, body_text: Seq<char>) -> Seq<char> {
    "."@
        + eval_id
        + "\n"@
        + eval_text
        + "    pop!  t0\n    tst   t0\n    jz!   ."@
        + exit_id
        + "\n."@
        + body_id
        + "\n"@
        + body_text
        + "    jmp!  ."@
        + eval_id
        + "\n."@
        + exit_id
        + "\n"@
}

/// Runs the body for as long as the condition that `eval_text` leaves is not zero.
pub fn while_loop(eval_id: &str, body_id: &str, exit_id: &str, eval_text: &str, body_text: &str) -> (r: String)
    ensures
        r@ == while_loop_text(eval_id@, body_id@, exit_id@, eval_text@, body_text@),
{
    let mut r = String::from_str(".");
    r.append(eval_id);
    r.append("\n");
    r.append(eval_text);
    r.append("    pop!  t0\n    tst   t0\n    jz!   .");
    r.append(exit_id);
    r.append("\n.");
    r.append(body_id);
    r.append("\n");
    r.append(body_text);
    r.append("    jmp!  .");
    r.append(eval_id);
    r.append("\n.");
    r.append(exit_id);
    r.append("\n");
    r
}

/// Takes `n` words off the return stack.
pub open spec fn unwind_text(n: nat) -> Seq<char> {
    "    imov! t0 "@
        + decimal_digits(n)
        + "\n    add   t5 t0\n"@
}

/// Takes `n` words off the return stack.
pub fn unwind(n: usize) -> (r: String)
    ensures
        r@ == unwind_text(n as nat),
{
    let mut r = String::from_str("    imov! t0 ");
    push_decimal(&mut r, n);
    r.append("\n    add   t5 t0\n");
    r
}

/// Replaces the two top items by the result of the instruction `mnemonic`.
pub open spec fn binary_text(mnemonic: Seq<char>) -> Seq<char> {
    "    pop!  t1 t0\n    "@
        + mnemonic
        + " t0 t1\n    push! t0\n"@
}

/// Replaces the two top items by the result of the instruction `mnemonic`.
pub fn binary(mnemonic: &str) -> (r: String)
    ensures
        r@ == binary_text(mnemonic@),
{
    let mut r = String::from_str("    pop!  t1 t0\n    ");
    r.append(mnemonic);
    r.append(" t0 t1\n    push! t0\n");
    r
}

/// Replaces the two top items by one if either is not zero, by zero otherwise.
pub open spec fn logical_or_text(label: Seq<char>) -> Seq<char> {
    "    pop!  t1 t0\n    imov  t2 1\n    tst   t0\n    jnz!  ."@
        + label
        + "\n    tst   t1\n    jnz!  ."@
        + label
        + "\n    imov  t2 0\n."@
        + label
        + "\n    push! t2\n"@
}

/// Replaces the two top items by one if either is not zero, by zero otherwise.
pub fn logical_or(label: &str) -> (r: String)
    ensures
        r@ == logical_or_text(label@),
{
    let mut r = String::from_str("    pop!  t1 t0\n    imov  t2 1\n    tst   t0\n    jnz!  .");
    r.append(label);
    r.append("\n    tst   t1\n    jnz!  .");
    r.append(label);
    r.append("\n    imov  t2 0\n.");
    r.append(label);
    r.append("\n    push! t2\n");
    r
}

/// Replaces the two top items by one if neither is zero, by zero otherwise.
pub open spec fn logical_and_text(label: Seq<char>) -> Seq<char> {
    "    pop!  t1 t0\n    imov  t2 0\n    tst   t0\n    jz!   ."@
        + label
        + "\n    tst   t1\n    jz!   ."@
        + label
        + "\n    imov  t2 1\n."@
        + label
        + "\n    push! t2\n"@
}

/// Replaces the two top items by one if neither is zero, by zero otherwise.
pub fn logical_and(label: &str) -> (r: String)
    ensures
        r@ == logical_and_text(label@),
{
    let mut r = String::from_str("    pop!  t1 t0\n    imov  t2 0\n    tst   t0\n    jz!   .");
    r.append(label);
    r.append("\n    tst   t1\n    jz!   .");
    r.append(label);
    r.append("\n    imov  t2 1\n.");
    r.append(label);
    r.append("\n    push! t2\n");
    r
}

/// Replaces the top item by one if it is zero, by zero otherwise.
pub open spec fn logical_not_text(label: Seq<char>) -> Seq<char> {
    "    pop!  t0\n    imov  t1 1\n    tst   t0\n    jz!   ."@
        + label
        + "\n    imov  t1 0\n."@
        + label
        + "\n    push! t1\n"@
}

/// Replaces the top item by one if it is zero, by zero otherwise.
pub fn logical_not(label: &str) -> (r: String)
    ensures
        r@ == logical_not_text(label@),
{
    let mut r = String::from_str("    pop!  t0\n    imov  t1 1\n    tst   t0\n    jz!   .");
    r.append(label);
    r.append("\n    imov  t1 0\n.");
    r.append(label);
    r.append("\n    push! t1\n");
    r
}

/// Replaces the two top items by `default_value` if the jump `jump` is taken after their subtraction, by `other_value` if not.
pub open spec fn comparison_text(default_value: Seq<char>, jump: Seq<char>, label: Seq<char>, other_value: Seq<char>) -> Seq<char> {
    "    pop!  t1 t0\n    imov  t2 "@
        + default_value
        + "\n    sub   t0 t1\n    "@
        + jump
        + " ."@
        + label
        + "\n    imov  t2 "@
        + other_value
        + "\n."@
        + label
        + "\n    push! t2\n"@
}

/// Replaces the two top items by `default_value` if the jump `jump` is taken after their subtraction, by `other_value` if not.
pub fn comparison(default_value: &str, jump: &str, label: &str, other_value: &str) -> (r: String)
    ensures
        r@ == comparison_text(default_value@, jump@, label@, other_value@),
{
    let mut r = String::from_str("    pop!  t1 t0\n    imov  t2 ");
    r.append(default_value);
    r.append("\n    sub   t0 t1\n    ");
    r.append(jump);
    r.append(" .");
    r.append(label);
    r.append("\n    imov  t2 ");
    r.append(other_value);
    r.append("\n.");
    r.append(label);
    r.append("\n    push! t2\n");
    r
}

/// Calls the function whose address is on top of the stack and comes back to `ret`.
pub open spec fn call_pointer_text(ret: Seq<char>) -> Seq<char> {
    "    imov! t0 ."@
        + ret
        + "\n    push  t5 t0\n    pop   t0\n    jmp   t0\n."@
        + ret
        + "\n"@
}

/// Calls the function whose address is on top of the stack and comes back to `ret`.
pub fn call_pointer(ret: &str) -> (r: String)
    ensures
        r@ == call_pointer_text(ret@),
{
    let mut r = String::from_str("    imov! t0 .");
    r.append(ret);
    r.append("\n    push  t5 t0\n    pop   t0\n    jmp   t0\n.");
    r.append(ret);
    r.append("\n");
    r
}

/// Puts the address of the function at `label` on the stack.
pub open spec fn function_address_text(label: Seq<char>) -> Seq<char> {
    "    imov! t0 ."@
        + label
        + "\n    push  t0\n"@
}

/// Puts the address of the function at `label` on the stack.
pub fn function_address(label: &str) -> (r: String)
    ensures
        r@ == function_address_text(label@),
{
    let mut r = String::from_str("    imov! t0 .");
    r.append(label);
    r.append("\n    push  t0\n");
    r
}

/// Puts the size `size` on the stack.
pub open spec fn push_size_text(size: nat) -> Seq<char> {
    "    imov! t0 "@
        + decimal_digits(size)
        + "\n    push! t0\n"@
}

/// Puts the size `size` on the stack.
pub fn push_size(size: usize) -> (r: String)
    ensures
        r@ == push_size_text(size as nat),
{
    let mut r = String::from_str("    imov! t0 ");
    push_decimal(&mut r, size);
    r.append("\n    push! t0\n");
    r
}

/// Adds `offset` to the pointer on top of the stack.
pub open spec fn add_offset_text(offset: nat) -> Seq<char> {
    "    pop!  t0\n    imov! t1 "@
        + decimal_digits(offset)
        + "\n    add   t0 t1\n    push! t0\n"@
}

/// Adds `offset` to the pointer on top of the stack.
pub fn add_offset(offset: usize) -> (r: String)
    ensures
        r@ == add_offset_text(offset as nat),
{
    let mut r = String::from_str("    pop!  t0\n    imov! t1 ");
    push_decimal(&mut r, offset);
    r.append("\n    add   t0 t1\n    push! t0\n");
    r
}

/// Takes the `n` bindings in scope off the return stack and jumps to the exit at `label`.
pub open spec fn return_jump_text(n: nat, label: Seq<char>) -> Seq<char> {
    "    imov! t0 "@
        + decimal_digits(n)
        + "\n    add   t5 t0\n    jmp!  ."@
        + label
        + "\n"@
}

/// Takes the `n` bindings in scope off the return stack and jumps to the exit at `label`.
pub fn return_jump(n: usize, label: &str) -> (r: String)
    ensures
        r@ == return_jump_text(n as nat, label@),
{
    let mut r = String::from_str("    imov! t0 ");
    push_decimal(&mut r, n);
    r.append("\n    add   t5 t0\n    jmp!  .");
    r.append(label);
    r.append("\n");
    r
}

/// The function at `label` with the body `body`; `exit` is the label of its exit and `name` its name.
pub open spec fn function_frame_text(label: Seq<char>, body: Seq<char>, exit: Seq<char>, name: Seq<char>) -> Seq<char> {
    "\nfn ."@
        + label
        + "\n"@
        + body
        + "."@
        + exit
        + "\n    pop   t0 t5\n    jmp   t0\n#end ."@
        + name
        + "\n"@
}

/// The function at `label` with the body `body`; `exit` is the label of its exit and `name` its name.
pub fn function_frame(label: &str, body: &str, exit: &str, name: &str) -> (r: String)
    ensures
        r@ == function_frame_text(label@, body@, exit@, name@),
{
    let mut r = String::from_str("\nfn .");
    r.append(label);
    r.append("\n");
    r.append(body);
    r.append(".");
    r.append(exit);
    r.append("\n    pop   t0 t5\n    jmp   t0\n#end .");
    r.append(name);
    r.append("\n");
    r
}

/// The interrupt service routine with the body `body`; `exit` is the label of its exit.
pub open spec fn isr_frame_text(body: Seq<char>, exit: Seq<char>) -> Seq<char> {
    "\nfn .fn_isr\n    isr!\n    push! p0 p1 p2 p3 v0 t0 t1 t2 t3 t4\n"@
        + body
        + "."@
        + exit
        + "\n    pop!  t4 t3 t2 t1 t0 v0 p3 p2 p1 p0\n    rti!\n#end .fn_isr\n"@
}

/// The interrupt service routine with the body `body`; `exit` is the label of its exit.
pub fn isr_frame(body: &str, exit: &str) -> (r: String)
    ensures
        r@ == isr_frame_text(body@, exit@),
{
    let mut r = String::from_str("\nfn .fn_isr\n    isr!\n    push! p0 p1 p2 p3 v0 t0 t1 t2 t3 t4\n");
    r.append(body);
    r.append(".");
    r.append(exit);
    r.append("\n    pop!  t4 t3 t2 t1 t0 v0 p3 p2 p1 p0\n    rti!\n#end .fn_isr\n");
    r
}

/// Storage of `words` words at `label`.
pub open spec fn global_storage_text(label: Seq<char>, words: nat) -> Seq<char> {
    "."@
        + label
        + " ["@
        + decimal_digits(words)
        + "]\n"@
}

/// Storage of `words` words at `label`.
pub fn global_storage(label: &str, words: usize) -> (r: String)
    ensures
        r@ == global_storage_text(label@, words as nat),
{
    let mut r = String::from_str(".");
    r.append(label);
    r.append(" [");
    push_decimal(&mut r, words);
    r.append("]\n");
    r
}

/// Stores the initial value `init` at `label`.
pub open spec fn global_init_text(init: int, label: Seq<char>) -> Seq<char> {
    "    imov! t0 "@
        + signed_decimal(init)
        + "\n    str!  ."@
        + label
        + " t0\n"@
}

/// Stores the initial value `init` at `label`.
pub fn global_init(init: isize, label: &str) -> (r: String)
    ensures
        r@ == global_init_text(init as int, label@),
{
    let mut r = String::from_str("    imov! t0 ");
    push_signed_decimal(&mut r, init);
    r.append("\n    str!  .");
    r.append(label);
    r.append(" t0\n");
    r
}

/// The definition of `label`.
pub open spec fn label_line_text(label: Seq<char>) -> Seq<char> {
    "."@
        + label
        + "\n"@
}

/// The definition of `label`.
pub fn label_line(label: &str) -> (r: String)
    ensures
        r@ == label_line_text(label@),
{
    let mut r = String::from_str(".");
    r.append(label);
    r.append("\n");
    r
}

/// The start of a program: the return stack, the reset sequence, the routine that initialises the globals, and their storage.
pub open spec fn program_text(init_routine: Seq<char>, global_prog: Seq<char>) -> Seq<char> {
    "\n# allocate 1024 words on the heap\n.ret_stack [0x0400]\n\nfn .reset\n    # setup isr and jump to main\n    imov! isr .fn_isr\n    # initialize ret stack ptrs\n    imov! t5 .ret_stack\n    imov! t0 0x03FF\n    add   t5 t0\n    imov! t1 .reset_ret\n    push  t5 t1\n    # initialize our global variables\n    call! .init_globals\n    jmp!  .fn_main\n.reset_ret\n    halt\n#end .reset\n\nfn .init_globals\n    push! t0\n"@
        + init_routine
        + "    pop!  t0\n    jmpr\n#end .init_globals\n\n"@
        + global_prog
        + "\n"@
}

/// The start of a program: the return stack, the reset sequence, the routine that initialises the globals, and their storage.
pub fn program(init_routine: &str, global_prog: &str) -> (r: String)
    ensures
        r@ == program_text(init_routine@, global_prog@),
{
    let mut r = String::from_str("\n# allocate 1024 words on the heap\n.ret_stack [0x0400]\n\nfn .reset\n    # setup isr and jump to main\n    imov! isr .fn_isr\n    # initialize ret stack ptrs\n    imov! t5 .ret_stack\n    imov! t0 0x03FF\n    add   t5 t0\n    imov! t1 .reset_ret\n    push  t5 t1\n    # initialize our global variables\n    call! .init_globals\n    jmp!  .fn_main\n.reset_ret\n    halt\n#end .reset\n\nfn .init_globals\n    push! t0\n");
    r.append(init_routine);
    r.append("    pop!  t0\n    jmpr\n#end .init_globals\n\n");
    r.append(global_prog);
    r.append("\n");
    r
}

} // verus!
