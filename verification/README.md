# shaon

Attendance, salaries and payslips of a Hilan portal, from the command line and
as a tool server.

The logic is a verified library: what a page of the portal says, which fields a
write sends, which days a month lacks, what is done after a refused save, how a
session is kept. Each function states in its contract what it returns, and
Verus proves it.

## Layout

- `src/` is the library.
  - `text`, `date`, `fields`, `json`, `records`, `dom`: characters, dates, form
    fields, JSON values, records in JSON and parsed pages.
  - `hr_core`, `use_cases`: months, days and writes whatever the portal, and
    what is done with them.
  - `attendance`, `calendar`, `reading`, `navigation`, `months`: reading a month
    from the calendar page.
  - `forms`, `submit`, `existing`, `flows`: writing a day, and deleting what is
    in its way.
  - `provider`, `api`, `reports`, `ontology`, `salary`, `payslip`: the rest of
    the portal.
  - `config`, `commit`, `client`: settings, storing credentials, the session and
    its requests.
  - `requests`, `responses`, `tools`, `render`, `cli`: what is asked and what is
    answered.
- `app/` is the program around it: arguments, files, the network, the keychain.
- `tests/` runs the library on concrete values.

The functions marked `external_body` call other crates. What each is believed
to do stands in its contract and its comment.
