# asmlings

An exercise runner for 16-bit x86 assembly: students fix `.asm` files, and each
save re-assembles the current exercise with NASM, runs its test suite on an
emulated 8086 and reports which checks pass.

`src/` is the verified library: text handling (`text`, `numbers`), the progress
file (`state`), exercises and their order (`exercise`), the source handed to
NASM and the reading of its symbol map (`assembler`), registers, the test suites
and the harness that turns what was read from the machine into results
(`registers`, `exercise_tests`, `harness`), hints, the decisions of the commands
(`commands`) and the layout of the output (`ui`).

`app/` is the program around it: the command line, files, NASM, the Unicorn
emulator, the file watcher and the terminal.

Label addresses are held in `assembler::Labels`, a list of name/address pairs
whose view is a map in which a later pair for a name replaces an earlier one,
rather than in a `HashMap<String, u64>`: with a `String` key, Verus could not
prove even the length of a `HashMap` after one insertion, while the list's
lookups, insertions and sorted listing are proved against the map view.
