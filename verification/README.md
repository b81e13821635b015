# jev-ncr-demo

A form for non-conformance reports (NCRs) that suggests defect codes: every code
of a catalog becomes one yes/no question about the description, all of them go
to the TypeSafe AI API in one request, and the codes come back ranked by
confidence.

`src/` is the library, verified with Verus:

- `typesafe` — the client for the API: questions and requests with their wire
  form, answers, errors, the retry policy, the configuration and the headers of
  each request.
- `ncr` and `catalog` — the defect codes, the request that asks about them, and
  the ranking of the answers. The codes in `catalog` are a sample; the
  application reads those of the plant from `defect_codes.json`.
- `form` — the state behind the form: the selection, what is shown, the labels.
- `json`, `text`, `text_map`, `double`, `time`, `headers` — the values that the
  others are written in, and what is taken for granted of the libraries below.

`app/` is the web application around it: the page, the HTTP round trips, the
environment, `serde`, and what is computed in floating point.
