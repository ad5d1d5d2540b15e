# expense_resolver

Resolves shared household expenses from the budgets of two owners: it picks each
owner's most recently modified budget, keeps the approved, categorised outflows whose
memo carries the `ALSHARED` marker, and records them on a csv sheet and in a sqlite
table, together with the service's knowledge counter so that the next run only asks
for what changed.

- `src/` is the verified library: the records of the service's answers (`json`), the
  requests (`request`, `budget`), the choice of the active budget and of the shared
  expenses (`budget`, `expenses`), the insert statement (`store`), the sheet entries
  (`sheet`), the text helpers they rest on (`text`), and one run for one owner as a
  sequence of decisions (`run`).
- `app/` is the program around it: HTTP over TLS, JSON parsing, the sqlite database,
  the csv file and the floating-point amounts on the sheet.
- `tests/` runs the library on concrete values.
