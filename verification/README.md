# teac

The middle and back end of a compiler for TeaLang, a small teaching language,
with its behaviour stated in contracts and proved by Verus.

- `src/ast`: the syntax tree of a function body.
- `src/ir`: the intermediate representation. `ir::function` is the state of a
  lowering, `ir::gen::scheme` says what every node is lowered to, and
  `ir::gen::function_gen` is the code that does it.
- `src/assembly`: layout of types, stack frames, the AAPCS64 calling convention,
  and the generator that puts a program together.
- `src/common`: tables of names, and target platforms.
- `app`: writes a generated program out through a printer.

What holds of all lowered code is proved next to the scheme:

| module      | what it says                                                       |
| ----------- | ------------------------------------------------------------------ |
| `growth`    | code is only appended; it begins with the entry label and ends in a return |
| `numbering` | registers are written once, labels are placed once, jumps land     |
| `typing`    | operands are written before they are read, and have the right types |
| `results`   | expressions give values, places are addressable, conversions meet their type |
| `scoping`   | known names stay, and names end with their block                   |
| `storage`   | arguments are addressable, array elements are stored in order      |
| `flow`      | where conditions, `&&`, `\|\|`, `if` and loops lead                |
| `meaning`   | arithmetic and comparisons compute what they stand for; `if` and `while` follow them |
| `blocks`    | no block falls through into the next                               |
| `bounds`    | which functions are sure to be lowered                             |
