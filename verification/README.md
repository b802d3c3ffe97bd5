# sentinel_mcp

Security scoring of Model Context Protocol servers, verified with Verus. A score is a function of
the files of a repository: the same files give the same grade and the same evidence, and every
finding points at a file.

## From files to a grade

1. `files` decides which files are read and which of them are shipped. Examples, tests and
   documentation never count.
2. `repo` builds the model of the server: a list of entities (the server, its tools, its
   dependencies and the sites of signals) with attributes and places. The facts come from
   `manifest` and `deps` (dependencies, transport, name), `scan` (signals of single lines) and
   `inventory` (tools), which rests on the analyzers `python` and `js`. `go` analyzes Go sources on
   its own.
3. `rules` runs the rules of `catalog` over the model and gives each finding its place.
4. `context` lowers severities where the model shows that a finding cannot be reached, and records
   each step.
5. `score` turns findings into sub-scores, a weighted composite, a letter and its caps. The grade of
   a server whose tools could not be found is withheld.
6. `report` writes a report as a JSON document (`document`). `grading` joins the steps, and
   `targets` reads lists of servers and orders the outcomes of a run.

`text` and `order` hold what the other modules say about texts: searching, lines, words, the order
of strings and stable sorting. `literal` blanks the string literals, the regular expressions and the
line and block comments of a source, so that a bracket or a comma inside one is not taken for code.
`json` is the boundary to `serde_json`: the few functions there whose contracts are taken on trust,
besides `String::push` in `text`.

## Specifications

Each type has a view: strings are sequences of characters, and a struct such as `Finding` is seen as
`FindingFacts`. The contract of a function equates the view of its result with a specification
function of the views of its arguments. Functions named `law_...` are the statements that span
several functions: which files matter, where a finding points, what a grade answers for, what a
modifier may change, what a rule can cost.

A script in which a window around a name would end inside a character cannot be analyzed; `can_parse`
tells such repositories apart.

`app/` holds the command line: the walk over a directory, git, and the printing of documents.
