# nautilus_tenant

Tenant identity, admission control and fair lifecycle scheduling for trading runtimes that several
tenants share, verified with Verus.

- `src/` is the verified library. Runtime nodes are a type parameter that it never looks into.
- `app/` drives live asynchronous nodes with the library and holds the serializable records.
- `tests/` exercises the library from outside.
