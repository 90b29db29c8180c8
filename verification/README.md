# raph

The front end of a small dependently typed language and the decision logic of
a tiny x86-64 kernel, written in Verus and proved against their contracts.

- `src/syntax`: source positions, the lexer (`Lexer::next`, `Lexer::read_all`),
  the error-recovering parser (`parse`, `parse_checked`) and the syntax tree.
  Each public function is specified by a spec function that says what it
  returns for every input; the parser's specification follows the grammar
  rule by rule.
- `src/spine`, `src/log`, `src/elaboration`, `src/module`: core terms, their
  printer (`pretty_term`), type synthesis for literals, constants and
  applications (`infer_type`), and the primitive names.
- `src/kernel`: the terminal's key handling (`Tty`), the keyboard scancode
  ring, descriptor-table entries and the boot information.
- `tests/`: tests that run the compiled library.
- `app/`: what cannot be verified: the UEFI entry point, port I/O and inline
  assembly of the kernel, and the error report with its `Display` messages.

Laws proved in `src`: the lexer's tokens lie in source order and hold the
bytes their spans cover (`law_tokens_in_source_order`); one step gives an
item with a non-empty span holding its bytes, after whitespace only
(`law_step_covers_its_bytes`); successive steps cover every byte that is not
whitespace, in increasing order, with at most one item per byte
(`law_items_cover_the_source`); on well-formed UTF-8 they reach the end of the input
(`law_well_formed_source_is_read_to_the_end`); string, number and identifier
tokens have their shapes (`law_token_shapes`, `law_identifier_characters`); `read_all` stores the leading tokens of
successive steps and consumes one item more
(`law_read_all_takes_the_leading_tokens`); once the lexer finds no token it
finds none again (`law_end_of_input_is_final`); up to 256 scancodes pushed
come back in order (`law_ring_gives_back_what_was_pushed`); caps lock pressed
twice changes nothing and turns the case of what a key types
(`law_caps_lock_twice`, `law_caps_lock_flips_case`); releasing a key types
nothing (`law_release_types_nothing`); an interrupt gate gives back the
handler address it was made with (`law_idt_offset_roundtrip`).
