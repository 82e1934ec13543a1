# open_print_pdf

Inspection, preflight and PDF/X-1a conversion planning for print PDFs, with
its logic verified by Verus.

## Layout

- `src/` — the verified library.
  - `pdf.rs`: a plain model of a parsed PDF (object table, trailer, pages).
  - `inspector.rs`: page geometry, fonts, images, transparency, the first
    OutputIntent and the PDF/X claim of a document.
  - `icc.rs`: the header and tag table of an ICC profile.
  - `preflight.rs`: the preflight rules.
  - `validator.rs`: transparent pages, pixel totals, and the judgement of a
    converted document.
  - `ghostscript.rs`: choosing the executable, the Ghostscript runs of a
    conversion and their arguments, watching and judging a run, the
    destination profile, and the conversion report.
  - `conversion_steps.rs`: a conversion as steps, each deciding the next
    action from what the last one gave.
  - `pdfx.rs`: the XMP packet and the objects that identify a document as
    PDF/X-1a.
  - `application.rs`, `cli.rs`: option checks, requests, refusals and the
    texts of the command-line tool.
  - `paths.rs`: paths as components, which the default output path and
    the same-file check are stated over.
  - `security.rs`, `error.rs`, `conversion.rs`, `models.rs`, `digest.rs`,
    `text.rs`: limits, errors, shared types and text helpers.
- `tests/` — tests of the library.
- `app/` — the `pdfx1a-convert` command-line program: reading PDFs with
  lopdf, running Ghostscript, file handling, floating-point page geometry,
  and JSON output.
