# access_map

Maps a credential to the identity behind it and to what it can reach: the roles and permissions it
carries, the resources it exposes, and how grave that is.

- `src/` is the verified library. Each provider has a module that takes what the provider's API
  answered as plain values and returns the result; its contract states the result exactly.
  `model` holds the result types, `mapping` the requests and what comes of a batch of them. `text`,
  `order`, `keyed`, `notes`, `permissions`, `json`, `url`, `xml`, `encoding`, `time`, `wildcard` and
  `paging` are what the providers share.
- `app/` asks the providers over the network, reads credential files and writes results.
- `tests/` runs the library on concrete answers.

Where a mapping needs further answers, the library says which one it wants next and is run again
with it (`aws::discovery`, `azure::arm`, `azure::pages`, `azure::storage`, `azure_devops`).
