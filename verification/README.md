# microbin (verified core)

The decisions behind a small paste / file / link sharing service, written in Verus:

- `src/share_code.rs`: which custom share codes are valid or reserved, and how a code is
  looked up among the stored pastas;
- `src/animals.rs`, `src/hashids.rs`: the generated share codes (animal names, or hashids
  made by the `harsh` crate);
- `src/pasta.rs`: the stored pasta as the decisions read it;
- `src/access.rs`, `src/owner.rs`, `src/removal.rs`: what a request to view, follow, read
  raw, or remove a pasta is answered, and how it changes the pasta list;
- `src/crypto.rs`: decryption of server-encrypted pastas by the `magic_crypt` crate;
- `src/text.rs`: trimming, case folding and comparison on string views.

`app/lib.rs` holds the actix-web handlers, which lock the pasta list, call the library,
and turn its answers into pages, redirects and storage updates.
