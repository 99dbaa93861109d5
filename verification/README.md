# mago_analyzer

The verified core of a PHP static analyzer's flow logic, written in Verus.
Each public function carries a contract over a mathematical model of its
inputs, and the properties that hold across functions are stated as proof
functions.

The analyzer's type system (unions of atomic types, their intersection and
comparison) is not part of this crate: where a decision depends on a type,
the function takes what the decision reads of the type as plain values
(integer bounds, "always truthy", "the refinement changed nothing").

## Modules

- `expr`: the part of a PHP expression tree that the analyzer reads.
- `expr_id`, `expr_props`: identifiers of expressions (`$a->b['k']`,
  `A::$c`), root variables, access-path derivation, and expression
  properties (side effects, null-safe access, logic operators).
- `path`, `keys`, `text`: variable keys: splitting a key into its parts,
  where an assertion on a key lands in the array or object that holds it,
  how a key is walked from its root and re-rooted on a referencing
  variable; substring search, decimal numbers
  and the integer pattern.
- `reconcile`, `references`: the decisions of type reconciliation that
  depend on the shape of assertions and keys, how always-true or
  never-true assertions are reported, the type given to a variable that
  has none, and the graph of variables bound by reference.
- `integer_narrowing`, `literal_equality`: how comparisons and equalities
  with an integer narrow a variable's type part by part.
- `conditional`, `guards`: what a condition certainly evaluates, constant
  conditions, and guards recorded by a true branch.
- `loops`, `assignments`, `iteration`, `jumps`: loop analysis: the
  assignment map and its depth, conditions that can fail on entry, widening
  of loop-carried integer ranges, do-while issues, `continue` targets, and
  (`loop_control`) when the body is analysed again until the types settle;
  (`foreach`) what a `foreach` concludes from the iterated type.
- `constants`: resolution of class constants, enum cases and `::class`.
- `magic_calls`, `null_access`: calls to methods documented with `@method`,
  and property access on values that may be `null`.
- `signature`: compatibility of an overriding method's signature.
- `resolution`, `instance_access`: method and property resolution: where
  method candidates come from and which are kept, static calls, undeclared and declared
  properties, and what an instance property access reaches and reports for
  each part of the object's type.

## Outside crates

`memchr` (substring search), `regex` (the integer pattern of array keys)
and `itoa` (decimal formatting of integers) are called from verified code
through trusted items in `text`. The contracts of `memchr::memmem::find`
and `itoa::Buffer::format` state their results in full. The regex
wrapper states the result exactly for the one pattern the crate uses,
`^[0-9]+$` (the haystack is a non-empty run of ASCII digits); for any other
pattern it only names the result, as a function of pattern and haystack.
