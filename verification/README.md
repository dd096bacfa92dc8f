# validated_struct

Structures whose fields are checked by predicates, declared with the
`validator!` macro, and accessed by key through `ValidatedMap`.

- `src/` is the library, verified with Verus:
  - `split`: splitting a key at its first separator;
  - `access`: what generated constructors and setters keep or refuse;
  - `keys`: which field a key leads to, whole or inside it;
  - `error`: the errors of insertion and lookup;
  - `model`: a declaration as the macro reads it, with attributes, written
    types and predicates found again by index;
  - `attrs`: reading a declaration's header, where `#[recursive_attrs]`
    separates the attributes a declaration keeps from those it hands down;
  - `flatten` and `flatten_laws`: turning nested declarations into a list
    of flat ones, and what holds of that list;
  - `structure`: the names, keys and messages of the generated code, one
    plan for each flattened declaration.
- `app/` reads tokens with `syn`, hands the library its model, and writes
  the generated code with `quote`; it also holds `ValidatedMap` and the
  `Display` forms of the errors.
- `tests/` runs the library on concrete declarations and keys.
