# rnix (typed syntax tree layer)

A typed view over the lossless syntax tree of the Nix expression language,
verified with Verus.

- `src/token.rs`: the kinds of lexical tokens, and which of them are trivia or values.
- `src/ops.rs`: binary and unary operator kinds and the tokens they come from.
- `src/tree.rs`: the syntax tree. `GreenNode` is an immutable tree of tokens
  and composite nodes (children shared through `Rc`); `Node` is a position in
  such a tree (its root and the path of child indices to it). Its model is
  `SyntaxPos`, over which all contracts are stated.
- `src/typed.rs`: `TypedNode` and the strongly typed wrappers (`Apply`,
  `IfElse`, `Pattern`, `AttrSet`, ...), with their accessors.
- `src/filter.rs`: removing entries from a pattern or a set, with the
  callback's answers as the input of a state machine stated as spec functions.
- `src/laws.rs`: properties that relate several functions, proved.
- `app/lib.rs`: conversion between rowan syntax trees and `GreenNode`.
