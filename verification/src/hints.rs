//! One hint per exercise, shown once on request while an exercise is open.
use vstd::prelude::*;
use crate::exercise_tests::{ExerciseName, exercise_name_of};
use crate::text::{chars_of, str_eq_chars};

verus! {

/// The hint for `01_bare_metal`.
pub const HINT_01_BARE_METAL: &'static str = "Use the `mov` instruction to load the value `0x1337` into the `ax` register.\n\
             Example: `mov ax, 0x1337`";

/// The hint for `02_halves`.
pub const HINT_02_HALVES: &'static str = "To make AX equal 0xABCD, you can load its high byte (AH) with 0xAB and low byte (AL) with 0xCD.\n\
             Example:\n\
               mov ah, 0xAB\n\
               mov al, 0xCD";

/// The hint for `03_addition`.
pub const HINT_03_ADDITION: &'static str = "Load 0x0010 into BX using `mov bx, 0x0010`, then add 0x0005 to BX using the `add` instruction.\n\
             Example:\n\
               mov bx, 0x0010\n\
               add bx, 0x0005";

/// The hint for `04_subtraction`.
pub const HINT_04_SUBTRACTION: &'static str = "Load 0x0050 into CX, then use the `sub` instruction to subtract 0x000F from it.\n\
             Example:\n\
               mov cx, 0x0050\n\
               sub cx, 0x000F";

/// The hint for `05_reg_to_reg`.
pub const HINT_05_REG_TO_REG: &'static str = "Load 0xBEEF into AX, then copy AX into DX using the `mov` instruction.\n\
             Example:\n\
               mov ax, 0xBEEF\n\
               mov dx, ax";

/// The hint for `06_bitwise_and`.
pub const HINT_06_BITWISE_AND: &'static str = "To mask out the high byte and keep only the low byte, bitwise AND AX with 0x00FF using the `and` instruction.\n\
             Example:\n\
               mov ax, 0xABCD\n\
               and ax, 0x00FF";

/// The hint for `07_bitwise_or`.
pub const HINT_07_BITWISE_OR: &'static str = "The bits in the low nibble/byte need to be set. Use the `or` instruction to set the appropriate bits of BX (bitwise OR BX with 0x00F0).\n\
             Example: `or bx, 0x00F0`";

/// The hint for `08_xor`.
pub const HINT_08_XOR: &'static str = "XORing a register with itself always yields 0. Use `xor` on CX and DX.\n\
             Example:\n\
               xor cx, cx\n\
               xor dx, dx";

/// The hint for `09_shift_left`.
pub const HINT_09_SHIFT_LEFT: &'static str = "Use the `shl` instruction to shift AX left by 4 bits.\n\
             Example:\n\
               mov ax, 0x0003\n\
               shl ax, 4";

/// The hint for `10_stack`.
pub const HINT_10_STACK: &'static str = "Load 0xCAFE into AX, use `push ax` to push it onto the stack, then use `pop bx` to restore it into BX.\n\
             Example:\n\
               mov ax, 0xCAFE\n\
               push ax\n\
               pop bx";

/// The hint for `11_bitwise_not`.
pub const HINT_11_BITWISE_NOT: &'static str = "Load 0x00FF into AX, then use the `not` instruction to flip every bit of AX.\n\
             Example:\n\
               mov ax, 0x00FF\n\
               not ax";

/// The hint for `12_shift_right`.
pub const HINT_12_SHIFT_RIGHT: &'static str = "Use the `shr` instruction to shift BX right by 3 bits.\n\
             Example:\n\
               mov bx, 0x0080\n\
               shr bx, 3";

/// The hint for `13_inc_dec`.
pub const HINT_13_INC_DEC: &'static str = "Use the `inc` instruction 3 times and the `dec` instruction once on the `ax` register.\n\
             Example:\n\
               inc ax\n\
               inc ax\n\
               inc ax\n\
               dec ax";

/// The hint for `14_mul`.
pub const HINT_14_MUL: &'static str = "Use `mul` with a 16-bit register operand. For `mul bx`, the result is DX:AX = AX * BX.\n\
             Example:\n\
               mov ax, 0x0005\n\
               mov bx, 0x0006\n\
               mul bx";

/// The hint for `15_div`.
pub const HINT_15_DIV: &'static str = "For 16-bit division, DIV divides DX:AX by the operand. Make sure to zero out DX first so DX:AX equals just AX.\n\
             Example:\n\
               mov ax, 99\n\
               xor dx, dx\n\
               mov bx, 10\n\
               div bx";

/// The hint for `16_neg`.
pub const HINT_16_NEG: &'static str = "Use the `neg` instruction to compute the two's complement negation of AX.\n\
             Example:\n\
               mov ax, 5\n\
               neg ax";

/// The hint for `17_cmp`.
pub const HINT_17_CMP: &'static str = "Use `cmp ax, 0x000A` followed by a conditional jump like `je`. If equal, jump to a label that loads 1 into BX. Otherwise, load 2 into BX and jump to the end.\n\
             Example:\n\
               cmp ax, 0x000A\n\
               je is_equal\n\
               mov bx, 0x0002\n\
               jmp done\n\
             is_equal:\n\
               mov bx, 0x0001\n\
             done:";

/// The hint for `18_loop`.
pub const HINT_18_LOOP: &'static str = "The `loop` instruction decrements CX and jumps if CX != 0. Define a label at the start of your loop, perform `add ax, 3` inside, and finish with `loop label`.\n\
             Example:\n\
               add_loop:\n\
                 add ax, 3\n\
                 loop add_loop";

/// The hint for `19_read_mem`.
pub const HINT_19_READ_MEM: &'static str = "Use square brackets around the label name to dereference its memory address and read its value.\n\
             Example: `mov ax, [my_value]`";

/// The hint for `20_write_mem`.
pub const HINT_20_WRITE_MEM: &'static str = "Compute the sum in AX, then use the `mov [result], ax` instruction to write the 16-bit value into the variable `result` in memory.\n\
             Example:\n\
               mov ax, 7\n\
               add ax, 8\n\
               mov [result], ax";

/// The hint for `21_reg_ind_address`.
pub const HINT_21_REG_IND_ADDRESS: &'static str = "First, load the address of `treasure` into BX using `mov bx, treasure`. Second, dereference BX using `[bx]` to load the value at that address into AX.\n\
             Example:\n\
               mov bx, treasure\n\
               mov ax, [bx]";

/// The hint for `22_source_index`.
pub const HINT_22_SOURCE_INDEX: &'static str = "Walk the array using the SI register as a pointer. Read a word with `[si]`, add it to BX, and advance SI by 2 (since each word is 2 bytes).\n\
             Example:\n\
               mov ax, [si]\n\
               add bx, ax\n\
               add si, 2\n\
               ; (repeat or loop for all 3 elements)";

/// The hint for `23_subroutines`.
pub const HINT_23_SUBROUTINES: &'static str = "Use the `call` instruction to execute the `double` subroutine. The subroutine will return automatically using `ret`.\n\
             Example: `call double`";

/// The hint for `24_xchg`.
pub const HINT_24_XCHG: &'static str = "Use the `xchg` instruction to swap the values of AX and BX atomically.\n\
             Example: `xchg ax, bx`";

/// The hint for `25_carry_flag`.
pub const HINT_25_CARRY_FLAG: &'static str = "First, add the lower 16-bit words using `add ax, bx` (which will set the Carry Flag when it overflows). Then, add the higher 16-bit words using `adc dx, cx` to include the Carry Flag.\n\
             Example:\n\
               add ax, bx\n\
               adc dx, cx";

/// The hint for `26_bit_ceck`.
pub const HINT_26_BIT_CECK: &'static str = "Use `test ax, 1` to check the LSB. Then, use `jnz bit_set` to jump if the bit is set (non-zero). Otherwise, jump to `bit_clear`.\n\
             Example:\n\
               test ax, 1\n\
               jnz bit_set\n\
               jmp bit_clear";

/// The hint for `27_pusha_popa`.
pub const HINT_27_PUSHA_POPA: &'static str = "Use the `popa` instruction to pop all general-purpose registers off the stack, restoring them to the values they had when `pusha` was called.\n\
             Example: `popa`";

/// The hint for `28_sign_comp`.
pub const HINT_28_SIGN_COMP: &'static str = "Use `cmp ax, 0` followed by `jl is_negative` (jump if less, which performs a signed comparison). If the condition isn't met, jump to `is_positive`.\n\
             Example:\n\
               cmp ax, 0\n\
               jl is_negative\n\
               jmp is_positive";

/// The hint for `29_rol`.
pub const HINT_29_ROL: &'static str = "Use the `rol` instruction to rotate AX left by 1 bit.\n\
             Example:\n\
               mov ax, 0x8001\n\
               rol ax, 1";

/// The hint for `32_abs_val`.
pub const HINT_32_ABS_VAL: &'static str = "Check if AX is negative by comparing it to 0 (`cmp ax, 0`). If it is less than 0, negate it with `neg ax`.\n\
             Example:\n\
               cmp ax, 0\n\
               jge done\n\
               neg ax\n\
             done:\n\
               ret";

/// The hint for `31_test_2`.
pub const HINT_31_TEST_2: &'static str = "Loop 5 times (using CX). In each iteration, compare AX to the current word at `[si]`. If AX is less, load that word into AX. Then advance SI by 2.\n\
             Example:\n\
               max_loop:\n\
                 cmp ax, [si]\n\
                 jae skip\n\
                 mov ax, [si]\n\
               skip:\n\
                 add si, 2\n\
                 loop max_loop";

/// The hint for `32_test_3`.
pub const HINT_32_TEST_3: &'static str = "Loop 16 times. In each iteration, shift AX right by 1 to put the lowest bit into the Carry Flag (`shr ax, 1`), then add the Carry Flag to BX using `adc bx, 0`.\n\
             Example:\n\
               count_loop:\n\
                 shr ax, 1\n\
                 adc bx, 0\n\
                 loop count_loop";

/// The hint for `33_merge_vectors`.
pub const HINT_33_MERGE_VECTORS: &'static str = "Use two separate index pointers or registers (like SI for vett1 and DI for vett2) and advance them in opposite directions.\n\
             Keep track of an iteration counter (CX) and use a flag or check the lowest bit of the counter to alternate between sum and difference.\n\
             Finally, loop through vett3 and use `test ax, ax` or `cmp ax, 0` followed by `jns` to skip positive numbers when summing.";

/// The hint for `34_redact_string`.
pub const HINT_34_REDACT_STRING: &'static str = "Maintain a counter for the current position in the original string. When reading a character, scan the `indici` array to check if the current position is listed.\n\
             If it is listed, skip writing the character to `out_buf`. If it's not listed, write it and increment the `out_buf` pointer.\n\
             Don't forget to append the null terminator '\\0' to `out_buf` at the very end!";

/// The hint for `35_splice_strings`.
pub const HINT_35_SPLICE_STRINGS: &'static str = "Write a helper function `strlen` that takes a string pointer, iterates until it finds 0, and returns the length.\n\
             For s1, copy the first (len/2) bytes to s3.\n\
             For s2, start copying from the end of s2 (address + len - 1) backwards, for (len - len/2) bytes.\n\
             Don't forget to push parameters correctly and use `mov bp, sp` to access them inside `CopiaStringhe`.";

/// The hint for the exercise with the given name, if it has one.
pub open spec fn hint_for(name: Seq<char>) -> Option<Seq<char>> {
    if name == "01_bare_metal"@ {
        Some(HINT_01_BARE_METAL@)
    } else if name == "02_halves"@ {
        Some(HINT_02_HALVES@)
    } else if name == "03_addition"@ {
        Some(HINT_03_ADDITION@)
    } else if name == "04_subtraction"@ {
        Some(HINT_04_SUBTRACTION@)
    } else if name == "05_reg_to_reg"@ {
        Some(HINT_05_REG_TO_REG@)
    } else if name == "06_bitwise_and"@ {
        Some(HINT_06_BITWISE_AND@)
    } else if name == "07_bitwise_or"@ {
        Some(HINT_07_BITWISE_OR@)
    } else if name == "08_xor"@ {
        Some(HINT_08_XOR@)
    } else if name == "09_shift_left"@ {
        Some(HINT_09_SHIFT_LEFT@)
    } else if name == "10_stack"@ {
        Some(HINT_10_STACK@)
    } else if name == "11_bitwise_not"@ {
        Some(HINT_11_BITWISE_NOT@)
    } else if name == "12_shift_right"@ {
        Some(HINT_12_SHIFT_RIGHT@)
    } else if name == "13_inc_dec"@ {
        Some(HINT_13_INC_DEC@)
    } else if name == "14_mul"@ {
        Some(HINT_14_MUL@)
    } else if name == "15_div"@ {
        Some(HINT_15_DIV@)
    } else if name == "16_neg"@ {
        Some(HINT_16_NEG@)
    } else if name == "17_cmp"@ {
        Some(HINT_17_CMP@)
    } else if name == "18_loop"@ {
        Some(HINT_18_LOOP@)
    } else if name == "19_read_mem"@ {
        Some(HINT_19_READ_MEM@)
    } else if name == "20_write_mem"@ {
        Some(HINT_20_WRITE_MEM@)
    } else if name == "21_reg_ind_address"@ {
        Some(HINT_21_REG_IND_ADDRESS@)
    } else if name == "22_source_index"@ {
        Some(HINT_22_SOURCE_INDEX@)
    } else if name == "23_subroutines"@ {
        Some(HINT_23_SUBROUTINES@)
    } else if name == "24_xchg"@ {
        Some(HINT_24_XCHG@)
    } else if name == "25_carry_flag"@ {
        Some(HINT_25_CARRY_FLAG@)
    } else if name == "26_bit_ceck"@ {
        Some(HINT_26_BIT_CECK@)
    } else if name == "27_pusha_popa"@ {
        Some(HINT_27_PUSHA_POPA@)
    } else if name == "28_sign_comp"@ {
        Some(HINT_28_SIGN_COMP@)
    } else if name == "29_rol"@ {
        Some(HINT_29_ROL@)
    } else if name == "32_abs_val"@ {
        Some(HINT_32_ABS_VAL@)
    } else if name == "31_test_2"@ {
        Some(HINT_31_TEST_2@)
    } else if name == "32_test_3"@ {
        Some(HINT_32_TEST_3@)
    } else if name == "33_merge_vectors"@ {
        Some(HINT_33_MERGE_VECTORS@)
    } else if name == "34_redact_string"@ {
        Some(HINT_34_REDACT_STRING@)
    } else if name == "35_splice_strings"@ {
        Some(HINT_35_SPLICE_STRINGS@)
    } else {
        None
    }
}

/// The hint for the exercise named `exercise_name`, if it has one.
pub fn get_hint(exercise_name: &str) -> (r: Option<&'static str>)
    ensures
        match r {
            Some(h) => hint_for(exercise_name@) == Some(h@),
            None => hint_for(exercise_name@) is None,
        },
{
    let c = chars_of(exercise_name);
    let n = c.as_slice();
    if str_eq_chars("01_bare_metal", n) {
        Some(HINT_01_BARE_METAL)
    } else if str_eq_chars("02_halves", n) {
        Some(HINT_02_HALVES)
    } else if str_eq_chars("03_addition", n) {
        Some(HINT_03_ADDITION)
    } else if str_eq_chars("04_subtraction", n) {
        Some(HINT_04_SUBTRACTION)
    } else if str_eq_chars("05_reg_to_reg", n) {
        Some(HINT_05_REG_TO_REG)
    } else if str_eq_chars("06_bitwise_and", n) {
        Some(HINT_06_BITWISE_AND)
    } else if str_eq_chars("07_bitwise_or", n) {
        Some(HINT_07_BITWISE_OR)
    } else if str_eq_chars("08_xor", n) {
        Some(HINT_08_XOR)
    } else if str_eq_chars("09_shift_left", n) {
        Some(HINT_09_SHIFT_LEFT)
    } else if str_eq_chars("10_stack", n) {
        Some(HINT_10_STACK)
    } else if str_eq_chars("11_bitwise_not", n) {
        Some(HINT_11_BITWISE_NOT)
    } else if str_eq_chars("12_shift_right", n) {
        Some(HINT_12_SHIFT_RIGHT)
    } else if str_eq_chars("13_inc_dec", n) {
        Some(HINT_13_INC_DEC)
    } else if str_eq_chars("14_mul", n) {
        Some(HINT_14_MUL)
    } else if str_eq_chars("15_div", n) {
        Some(HINT_15_DIV)
    } else if str_eq_chars("16_neg", n) {
        Some(HINT_16_NEG)
    } else if str_eq_chars("17_cmp", n) {
        Some(HINT_17_CMP)
    } else if str_eq_chars("18_loop", n) {
        Some(HINT_18_LOOP)
    } else if str_eq_chars("19_read_mem", n) {
        Some(HINT_19_READ_MEM)
    } else if str_eq_chars("20_write_mem", n) {
        Some(HINT_20_WRITE_MEM)
    } else if str_eq_chars("21_reg_ind_address", n) {
        Some(HINT_21_REG_IND_ADDRESS)
    } else if str_eq_chars("22_source_index", n) {
        Some(HINT_22_SOURCE_INDEX)
    } else if str_eq_chars("23_subroutines", n) {
        Some(HINT_23_SUBROUTINES)
    } else if str_eq_chars("24_xchg", n) {
        Some(HINT_24_XCHG)
    } else if str_eq_chars("25_carry_flag", n) {
        Some(HINT_25_CARRY_FLAG)
    } else if str_eq_chars("26_bit_ceck", n) {
        Some(HINT_26_BIT_CECK)
    } else if str_eq_chars("27_pusha_popa", n) {
        Some(HINT_27_PUSHA_POPA)
    } else if str_eq_chars("28_sign_comp", n) {
        Some(HINT_28_SIGN_COMP)
    } else if str_eq_chars("29_rol", n) {
        Some(HINT_29_ROL)
    } else if str_eq_chars("32_abs_val", n) {
        Some(HINT_32_ABS_VAL)
    } else if str_eq_chars("31_test_2", n) {
        Some(HINT_31_TEST_2)
    } else if str_eq_chars("32_test_3", n) {
        Some(HINT_32_TEST_3)
    } else if str_eq_chars("33_merge_vectors", n) {
        Some(HINT_33_MERGE_VECTORS)
    } else if str_eq_chars("34_redact_string", n) {
        Some(HINT_34_REDACT_STRING)
    } else if str_eq_chars("35_splice_strings", n) {
        Some(HINT_35_SPLICE_STRINGS)
    } else {
        None
    }
}

/// Every exercise with a test suite has a hint, filed under the exercise's name.
pub proof fn lemma_every_exercise_has_hint(e: ExerciseName)
    ensures
        hint_for(exercise_name_of(e)) is Some,
{
}

} // verus!
