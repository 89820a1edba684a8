# array_sort

The SQL function `array_sort(array, desc, nulls_first)` on Apache Arrow list columns, verified
with Verus.

```sql
select array_sort([3, 1, 2]);                         -- [1, 2, 3]
select array_sort([3, null, 1], 'desc');              -- [null, 3, 1]
select array_sort([3, null, 1], 'DESC', 'nulls last'); -- [3, 1, null]
```

Every list of the column is sorted; null lists stay null. The contract of
`sort::array_sort_inner` says which error comes on which arguments, and that each list of the
result holds the items of the list that it stands for, in the order that was asked for.
`laws` proves from this that the result is determined, that sorting twice is sorting once, that
the opposite order gives the reverse, that the result is packed, and that it has the type that the
function declares.

Arrow's kernels do the sorting and the concatenation. What the library relies on of them is
written down in `src/arrays.rs`, with the limits beyond which they panic. `array_sort_inner`
requires that its arguments are within these limits; `checked::checked_array_sort` tests it.

* `src/` - the library.
* `tests/` - its tests, against the real Arrow crates.
* `app/` - the function and the benchmark in DataFusion.
