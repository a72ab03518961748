# autors

Readers and writers for files of automotive measurement and calibration, verified with Verus:

- **A2L** (ASAM MCD-2 MC): `a2l` holds a tokenizer, a block tree, a typed object model and a
  canonical writer. `a2l::laws` proves that what is written for a node, and for a whole
  project, reads back as it was.
- **ASC** (Vector ASCII traces): `asc` holds the records of a trace, their lines, and whole
  files. `asc::read_laws` proves that whatever was read reads back once it is written.
- **BLF** (Vector binary logging): `blf` holds the objects, compressed containers, whole files
  and incremental reading and writing.

`bus`, `span`, `text`, `numeral` and `views` are shared.

The library works on values in memory. Floating-point numbers come into it as what reading and
writing needs of them: a text, an integer that orders as the number does, a nearest integer,
and, of two that follow each other, the coefficients and the factor that they stand for.
`app/` reads and writes files and streams, and turns floating-point values and system times
into those of the library and back.

Two outside crates are called from verified code, behind declarations that state what is
believed of them: `flate2` in `blf::zlib`, and `indexmap` in `a2l::maps`. A few functions of
`str` and `String` are declared in `text`.
