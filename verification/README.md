# Execution results and error information

A verified piece of an Oracle database driver, written in Verus.

- `response`: a reply's bytes with a read position, and the readers of the
  wire format (one-byte values, length-prefixed unsigned integers, byte
  strings plain, null or in chunks, UTF-8 strings), each specified by a
  function on bytes.
- `response::error_info`: the error information at the end of a call, read
  field by field against the layout written down as spec functions.
- `rowid`: the row address that the error information carries.
- `value`, `row`: values as they come from the database, their mathematical
  model, and rows with their column descriptions.
- `transpose`: turning a columnar DML RETURNING container into rows.
- `exec_result`: the results of a single and of a batch execution, and the
  extraction of OUT bind data and returned rows from them.
- `statement`, `client`: what those need of a prepared statement and of the
  connection.

`app/` holds copies of the error types with `Display`.
