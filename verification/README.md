# tercen_http

The verified core of an HTTP client used from R: requests carry R values
as JSON, in a binary format, as raw bytes or as `multipart/mixed` bodies,
and responses are decoded according to their content type.

`src/` is verified with Verus:

- `codec` – little-endian encodings of integers and the law that a value
  written is read back unchanged;
- `reader` – the buffer a response body is read through, chunk by chunk
  (a `std::io::Cursor` over `bytes::Bytes`, reached through the `bytes`
  crate);
- `writer` – the buffer a request body is written through, with its flush
  threshold;
- `headers` – header maps that keep each name once;
- `multipart` – building parts from an R list and framing them;
- `response` – choosing how a response is decoded and assembling the
  result handed back to R;
- `request` – URL and query construction (through the `url` crate), the
  request's `content-type`, host and port, and the `HTTP_PROXY` value;
- `text` – string comparisons used by the above.

`app/` holds the R entry points, the network I/O (hyper) and the
conversions between R values and the library's types.
