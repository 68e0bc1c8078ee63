# lore_auth

Authentication and authorization for a revision control system, with its rules proved in Verus.

- `src/server`: which tokens a server accepts and what they allow, the keys that verify them, who
  owns a repository, and when it may be created or deleted.
- `src/credential`: what is kept of a user's tokens, how it is encrypted, and to whom a token may be
  given.
- `src/client`: the authentication commands.
- `src/jose.rs`: signed tokens and key sets.
- `src/ids.rs`, `src/status.rs`, `src/text.rs`, `src/model.rs`, `src/allocator.rs`: what the rest
  builds on.
- `app`: files, the system's secure store, the network, the command line and the allocator.
- `tests`: the library as its users see it.

Work that alternates with questions to the outside is a machine: `begin` gives the first question,
`step` takes an answer and gives the next question, and the last action is the outcome. What holds of
whole runs is proved beside the machine, as a public proof function.
