# vibedev

The logic of an editor with an agent at its side, written in Verus: every function in
`src/` carries a contract that Verus proves.

- `src/` is the library. It decides and computes; it does not read files, send requests
  or draw. What goes on over time (an update, a tunnel, a process that is watched) is a
  machine that asks for one operation at a time and is told what came of it.
- `app/` carries out what the library asks for: files, processes, requests.
- `tests/` run the library on concrete values, with the outside crates that it calls.

What the library believes without proof stands in a few functions marked
`external_body`, each with a comment that says which outside function it calls and what
it claims of it: parsing JSON and versions, decoding and encoding of addresses, a few
functions of `std` on texts.

Public proof functions whose names begin with `law_` state what holds of several
functions together: that an update never loses a build, that a pause between restarts
is bounded, that a tunnel is kept until it is torn down.
