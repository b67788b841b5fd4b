# csv_tasks

The verified core of a small CSV task service. A request names a CSV file and says how to
split its rows among groups of recipients (by the value of one column), which columns to
drop, and whether the resulting files go out by e-mail and/or SFTP.

`src/` is the library, verified with Verus:

- `record` — a CSV row as an ordered map from column name to value.
- `table` — reading CSV data (through the `csv` crate) into records, the way a map keyed by
  the header row reads it, and writing tables back as CSV.
- `task` — the request types; splitting rows into one file per listed value, filtering
  columns, and deciding where each written file goes.
- `email` — file endings, attachment names, MIME types (through `mime_guess`), the e-mails
  as plain values, and their messages (through `lettre`).
- `sftp` — the decisions of the SFTP service, as step functions that take the outcome of each
  network step.
- `repository` — the stored task types and the task created for a post.

`app/` is the program around it: the HTTP server, reading and writing files, the SMTP, SSH and
database connections.
