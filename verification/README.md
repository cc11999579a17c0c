# import_csv

Imports the rows of a `;`-separated CSV file into the Sankhya ERP.

- `src/` is the verified library: the request bodies built from spreadsheet
  rows (`import_core::generate_body`), the grouping of order rows by their `@`
  identifier and the counting of a file (`import_core::spreedsheet`), the log
  of an import (`import_core::import_log`), the service URLs and login body
  (`api`), the shapes of the bodies (`schemas`), and the text map they are
  built from (`keyed_map`).
- `app/` is the program around it: command line, configuration, reading the
  CSV file, the HTTP session with the ERP, the spinner and the log file.
