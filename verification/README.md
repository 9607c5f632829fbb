# lvn_fragment

A verified model of the interpolation trees that a LiveView client keeps:
full fragments (`Fragment`, `Root`), the diffs that arrive over the wire
(`FragmentDiff`, `RootDiff`), the conversion of a diff into a fragment, and
the expansion of shared templates.

- `src/` is the library, verified with Verus. Every map keyed by a string
  is a vector of `(key, value)` pairs. Each data type has an abstract value
  (`@`), and the contracts are stated over those values.
  - `statics`: statics, strings, template tables and their lookup by id.
  - `stream`: streams and the conversion of a stream update.
  - `fragment`: fragments, diffs, their abstract values and simple queries.
  - `convert`: turning a diff into a full fragment.
  - `expand`: resolving template references and deleting templates.
  - `root`: roots, components and the event carried by a diff.
  - `laws`: properties proved of the above.
- `app/` holds the wire form of the same types, with serde derives and hash
  maps, converted to and from the library's types.
- `tests/` runs the library on concrete trees.
