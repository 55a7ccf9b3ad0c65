# photo_album

A self-hosted photo album: users are invited by an administrator, sign up,
upload photos (faces are detected and can be named, tags can be attached),
and browse a feed grouped by year and month, filtered by tags and people.

## Layout

- `src/` is the verified library (Verus). It holds the rules of the album with
  their contracts and proofs:
  - `image_filter.rs`: the SQL that selects files by tag and people filters,
    and the laws that each filter's binds fill its placeholders in order (for
    both filters together only when the tag filter is not `ONLY`, whose second
    copy of the tags would fill the people placeholders);
  - `components/feed.rs`: the feed query, the grouping of a page of files under
    year and month headings, and the laws that no file is lost and that pages
    join up without repeated headings;
  - `components/upload.rs`, `image_view.rs`, `home_page.rs`, `invite.rs`,
    `login.rs`, `signup.rs`, `users.rs`, `testdb.rs`: the rules behind each page
    (face crops, tag and date text, who may edit or delete, name checks, the
    changes to the people of an image, invitations);
  - `session.rs`: when a session's expiry is refreshed or switched from a fixed
    date to inactivity;
  - `auth.rs`: users, permissions and password checks;
  - `schema.rs`: splitting the schema file into statements;
  - `pages.rs`: which page a route shows to a visitor;
  - `text.rs`, `encoding.rs`, `random.rs`, `imaging.rs`: text helpers and the
    calls into `base64`, `regex`, `uuid`, `rand` and `image`, each behind a
    small trusted item.
- `tests/` exercises the library with the real outside crates.
- `app/` is the server: an axum application with sqlx, the session and login
  layers of axum-login, face detection with rustface (tuned with floating-point
  thresholds), and JSON endpoints that
  call the library.
