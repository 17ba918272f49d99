# native_shell

The decisions behind native desktop integration, written and proved in Verus:

- `file_transfer`, `file_url`, `app`, `paste`: clipboard formats that carry
  files, what the application knows of the transfers it takes part in, and the
  one report that the owner of a paste gets.
- `outbound_drag`, `x11_clipboard`: an Xdnd source as a state machine, and the
  file clipboard of X11.
- `shell_transfer`, `jump_list`, `devices`, `dispatcher`, `bindings`: data
  objects of the Windows shell, the taskbar's jump list, the choice and recovery
  of DirectX devices, task dispatch, and the arguments for generating bindings.
- `text_layout`, `styled_text`, `interactive_text`, `elements`, `pixels`: lines
  of text and the indices in them, runs of style, and what the pointer does on
  text.
- `chars`, `utf16`, `paths`: text, UTF-16 and pathnames.

`src/` is the verified library. What holds of it as a whole stands in the public
proof functions whose names begin with `law_`. Calls into other crates and into
parts of the standard library that vstd does not specify go through small
wrappers, each of which says what it relies on. Pathnames are those of Linux, FreeBSD
or Windows. Where the systems differ, functions take the `PathSystem` of the machine
that they run on: what holds on Unix is spelled out, and what std and `url` do on
Windows has names.

`app/` is ordinary Rust around the library: connections, locks, timers and
floating-point arithmetic. Its Windows modules call bindings that
`generate_bindings` writes to `app/bindings.rs`.
