# cognito-user-manager

A small web console for an Amazon Cognito user pool: users sign in, edit their
own profile, second factors and passkeys; members of an admin group search,
create, edit and disable users and manage groups.

The crate is split in two.

- `src/` is the library, verified with Verus. It holds every rule the console
  applies: which attributes a screen may change and what a patch turns into,
  how a sign-in challenge is answered, how Cognito's errors are worded and
  with which status, the temporary passwords, the MFA preferences and the
  authenticator enrolment URI, the search filter and its escaping, the
  schema and signing-key caches, what an ID token must carry to be accepted,
  the cookie plan and cookie attributes for tokens, the static-file caching
  rules, and the checks and guards of every endpoint. Each public function
  states its result in its `ensures`. Where the result rests on the system's
  randomness or on the clock, the contract says what holds of every outcome,
  and a verified function that takes the outside result as an argument
  (the random draws, the decoded claims) says exactly what is made of it:
  `password_from_draws` gives the very password `generate` would make from
  the same draws. The `law_*` proof functions state the properties that span
  several calls.
- `app/` is the server around it: the axum routes and extractors, the AWS SDK
  calls and the conversions from their types, fetching the signing keys,
  setting cookies, JSON, the message catalogs and the static frontend. It
  runs the calls in the order the library lays out.

The library reaches outside crates only through a few trusted wrappers, each
documented where it stands: HMAC-SHA256 (`hmac`, `sha2`), base64 (`base64`),
JSON parsing of token payloads and challenge parameters (`serde_json`), the QR
code (`qrcode`), system randomness (`getrandom`), and RSA key decoding and
ID-token signature checks (`jsonwebtoken`).

## Running

The server reads its configuration from the environment (or a `.env` file):
`AWS_REGION`, `COGNITO_USER_POOL_ID` and `COGNITO_CLIENT_ID` are required;
`COGNITO_CLIENT_SECRET`, `COGNITO_ADMIN_GROUP` (default `admin`), `BIND_ADDR`
(default `127.0.0.1:3000`) and `SECURE_COOKIES` are optional. Message catalogs
are read from `locales/` and the frontend from `front/dist` and
`front/locales`, relative to the working directory.
