# lance_compound

Compound (multi-column) B-tree scalar indices, verified with Verus.

- `src/` is the library. `scalar`, `datatype` and `batch` hold the data; `pages`,
  `stats`, `lookup`, `flat` and `train` cut the input into pages and build an
  index and its page statistics; `index`, `rows` and `row_set` search it;
  `parser` and `plugin` connect it to queries and to training requests. `rowids`
  moves row metadata between a manifest and external files, `schema` finds the
  fields that columns name, `create` decides how a requested index is named and
  built. `trained` states what an index answers, from training to remapping.
- `app/` adds storage, Arrow conversion and async plumbing.
- `tests/` runs the library.

Contracts speak of views: a batch is a sequence of columns of values, a value its
type and key, a search result the set of row addresses it holds. The central
laws stand next to the functions they are about: a lookup batch reads back as
what it was written from, the pages of an index hold its input row for row,
searching the pages that statistics do not rule out finds what searching the
whole input would, whatever the page size, a null check finds exactly the rows
with a null, a remapped index answers with the new ids, a column resolves to one
field whose written name resolves to it again, and what was moved to an external
file reads back byte for byte.
