# fileid_store

A file store served over two protocols, with its logic verified in Verus.

* A TCP service (port 8088). A client sends a four-byte big-endian length
  and a kind byte. Kind `0` uploads: the dispatcher hands out the next file
  number from the counter at the head of `data.dat` and a file id
  `fileid/{number}/{length}/{digest}`; the bytes are stored under
  `data//{number % 64}/{digest}` and the id is sent back. Any other kind
  downloads: the client sends a file id, the digest is checked, and the
  file is sent back from `data/{number % 64}/{name}`.
* An HTTP service (port 8000) that serves `/fileid/...` paths the same way,
  with a `Content-Type` taken from the file extension.

The digest is SipHash-2-4 with zero keys of the number and the length,
each as its four bytes in the machine's native order, as hashing the two
`i32` fields with `Hash` and `std::hash::SipHasher` gives it.

Layout:

* `src/` the verified library: `codec` (big-endian counter bytes),
  `decimal` (integer spelling and parsing as `Display`/`FromStr` do it),
  `text` (splitting and prefixes), `fileid` (digest, check, dispatcher),
  `request` (TCP download and upload paths), `http` (routing and headers),
  `transfer` (request header and transfer loops).
* `tests/` tests of the library.
* `app/` the server program: sockets, files and threads.
