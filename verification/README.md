# lazygocd

A terminal client for GoCD pipelines: a dashboard of pipeline groups, runs with
their stages and jobs, console logs that follow, and a one-shot lookup on the
command line.

The logic is a library in Verus. Its modules state what they do in contracts, and
Verus proves them:

- `model`, `names`, `text`, `clock`, `unicode`: the data and the text it comes from
- `api`, `github`, `demo`: what is sent to a server and what its answers mean
- `config`, `editor`, `notify`, `completion`: settings and the things around
- `app`: the interface as a state machine, from keys, mouse, time and answers to
  the next state and to work to be done
- `ui`: what each part of the screen says
- `inspect`: the lookup on the command line

`app/` holds the program around it: terminal, network, files and processes.
`tests/` runs the library on concrete values.
