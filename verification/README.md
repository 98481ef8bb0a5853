# yaak_plugin_runtime

The plugin manager of a desktop API client, verified with Verus.

Plugins run in a process of their own and talk to the application in events. The
manager keeps the list of running plugins and the list of subscribers to their
events, sends requests to one plugin or to all, and makes sense of the replies.

## Layout

- `src/events.rs`, `src/error.rs`, `src/plugin_handle.rs`: the data.
- `src/manager.rs`: the lists of plugins and subscribers, and all that changes them.
- `src/exchange.rs`: one request to some plugins, and the collector of the replies.
- `src/requests.rs`: the requests that the application makes, and how the replies
  are read.
- `src/initialization.rs`: loading all plugins, as a machine that goes from event to
  action.
- `src/paths.rs`: plugin directories, and Windows paths.
- `src/text.rs`, `src/search.rs`, `src/filtering.rs`: text, first matches, and what
  filtering keeps.
- `src/laws.rs`: what holds across operations.
- `src/loading_laws.rs`: what holds of loading all plugins, of one step and of a whole
  loading.
- `app/`: channels, tasks, the gRPC server and the file system.

## How an operation runs

The library never waits. `PluginManager::filter_data`, for one, looks the plugin up,
subscribes, and returns an `Exchange` with a `ReplyCollector`. The application sends
what `Exchange::next_send` names and reports each outcome to `Exchange::sent`; it
offers each event that comes in to the collector until that is full, and closes the
exchange. `PluginManager::filtered_data` then reads the reply.

## What is trusted

`str::to_lowercase` of std, `dunce::simplified`, `regex::Regex::replace` with one
pattern, and `path_slash::PathBufExt::to_slash_lossy`. Each has a contract beside it
that says what is believed.
