# templify

A small command line tool that creates reusable text templates from a
description (typed or spoken) and renders them from positional parameters
and the clipboard.

- `src/` is the verified library: text trimming and replacement
  (`text`), template rendering and the prompt that asks for a template
  (`template_service`), the data exchanged with the chat service and its
  configuration (`openai`), the template store (`store`), time stamps
  (`timestamp`) and the decisions taken on each command (`cli`). Its
  functions are verified by Verus against their contracts, apart from a few
  small trusted wrappers (marked `external_body`) that call into std, `url`
  and `chrono` and whose contracts state what those calls are documented to
  do.
- `app/` is the program around it: arguments, environment, files, HTTP,
  clipboard and console.
- `tests/` runs the library on concrete inputs.

Rendering replaces `$PASTE` with the clipboard text, then `$N` down to `$1`
with the positional parameters, so that `$1` never takes the start of `$10`.
