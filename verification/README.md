# erenflow

The verified core of the ErenFlow agent framework:

- `error` — the framework's error type, with context, classification,
  hints and the text each error displays;
- `json` — the JSON data model (numbers with their value as a double,
  objects with ascending keys) that state and schemas are made of;
- `validation` — JSON Schema validation of state, specified by the spec
  functions `check_value` and friends, with laws relating `validate`,
  `validate_field` and `required_fields`;
- `state` — the plain state map (`PlainState`) and its shared,
  mutex-protected handle (`SharedState`);
- `optimization` — a copy-on-write state handle and clone statistics.

`app/` holds what stays in ordinary Rust: conversion to and from
`serde_json` values, serialisation of state, `Display` for the error types,
and the floating-point efficiency ratio.
