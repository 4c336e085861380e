# salesforce-exporter

Bulk export of Salesforce data to Parquet, with its logic verified in
[Verus](https://github.com/verus-lang/verus).

## Usage

```sh
# List visible Salesforce objects
salesforce-exporter list

# Describe an object's fields
salesforce-exporter describe Account

# Export an object to Parquet
salesforce-exporter export Account --output account.parquet

# Batch export via config file
salesforce-exporter export --config export.toml
```

## Layout

- `src/` is the library. Verus proves the contract of every function in it but those listed
  below.
  - `fields`: which fields of an object are exported, and as what
  - `columns`: from JSON records to Arrow arrays and record batches
  - `civil`: dates, times and instants, read with `jiff`
  - `fetch`: the query of an export and the records that it brings
  - `output`: where an export is written
  - `export`: the steps of an export, and the course of a batch
  - `config`: what a batch is asked to do
  - `token_cache`: access tokens kept between runs
  - `listing`, `json`, `text`: what the others build on
- `app/` is the command line tool around it: the Salesforce client, files and the terminal.
- `tests/` runs the library with the outside crates linked.

What the library takes on trust stands behind small functions marked
`#[verifier::external_body]` and behind `assume_specification`: the parsers and durations of
`jiff`, the array constructors and `RecordBatch::try_new` of `arrow`, and from the standard
library `str::trim`, `str::to_lowercase`, `Path::extension` and `std::path::is_separator`.
Each says in its doc comment what it claims.
